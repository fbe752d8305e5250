//! Carrying out what a key asks for: the key handlers decide an action
//! from the state they read; here the action is applied to the screen's
//! state, and what is left (popups, loading, talking to the broker) is
//! handed back to the caller.

use vstd::prelude::*;
use crate::keys::{
    handle_message_list_key, message_list_spec, Key, MessageListAction, MessageListState, QueueListAction,
};
use crate::comparison::ComparisonTab;
use crate::model::MessageInfo;
use crate::popup::PopupStep;
use crate::session::{
    lemma_increasing_set, message_positions, queue_positions, toggled, MessageBrowser,
    Popup, QueueBrowser, Screen,
};
use crate::text::{owned, pop_char, push_char};

verus! {

// ---------------------------------------------------------------------------
// The message list
// ---------------------------------------------------------------------------

/// The state of the message list that its keys change.
pub struct MessageScreen {
    pub browser: MessageBrowser,
    /// The screen shown.
    pub screen: Screen,
    /// A filter is open, and its input has the focus.
    pub filter_active: bool,
    pub filter_focused: bool,
    /// The list reloads itself every few seconds.
    pub auto_refresh: bool,
    /// How many messages a load reads.
    pub fetch_count: u32,
    /// The message the detail screen shows, by position among the loaded.
    pub detail: usize,
}

/// The message list state as values.
#[verifier::ext_equal]
pub struct MessageScreenModel {
    pub messages: Seq<MessageInfo>,
    pub filter: Seq<char>,
    pub advanced: bool,
    pub filtered: Seq<usize>,
    pub cursor: Option<usize>,
    pub selection: Set<usize>,
    pub screen: Screen,
    pub filter_active: bool,
    pub filter_focused: bool,
    pub auto_refresh: bool,
    pub fetch_count: u32,
    pub detail: usize,
}

impl View for MessageScreen {
    type V = MessageScreenModel;

    open spec fn view(&self) -> MessageScreenModel {
        MessageScreenModel {
            messages: self.browser.messages_view(),
            filter: self.browser.filter_view(),
            advanced: self.browser.advanced_view(),
            filtered: self.browser.filtered_view(),
            cursor: self.browser.cursor_view(),
            selection: self.browser.selection(),
            screen: self.screen,
            filter_active: self.filter_active,
            filter_focused: self.filter_focused,
            auto_refresh: self.auto_refresh,
            fetch_count: self.fetch_count,
            detail: self.detail,
        }
    }
}

/// The state with the filter set to `filter` (an expression when
/// `advanced`) and the shown messages chosen by it again.
pub open spec fn refiltered(m: MessageScreenModel, filter: Seq<char>, advanced: bool) -> MessageScreenModel {
    MessageScreenModel { filter, advanced, filtered: message_positions(m.messages, filter, advanced), ..m }
}

/// The cursor after the shown messages changed: the first row when there
/// is one, else `otherwise`.
pub open spec fn first_row_or(m: MessageScreenModel, otherwise: Option<usize>) -> Option<usize> {
    if m.filtered.len() > 0 {
        Some(0usize)
    } else {
        otherwise
    }
}

/// The selection after `a` on the message list: cleared when every shown
/// message is selected, else the shown messages.
pub open spec fn select_all_spec(selection: Set<usize>, shown: Seq<usize>) -> Set<usize> {
    if shown.to_set().subset_of(selection) {
        Set::empty()
    } else {
        shown.to_set()
    }
}

/// The state after an action on the message list, and what is left for
/// the caller: `Nothing` when the action is all carried out; otherwise the
/// action itself (a popup, a load, talking to the broker, a status line,
/// resetting the detail view, quitting).
pub open spec fn message_apply_spec(m: MessageScreenModel, a: MessageListAction) -> (
    MessageScreenModel,
    MessageListAction,
) {
    match a {
        MessageListAction::MoveCursor(c) => (MessageScreenModel { cursor: c, ..m }, MessageListAction::Nothing),
        MessageListAction::OpenMessage { message, close_filter } => (
            MessageScreenModel {
                screen: Screen::MessageDetail,
                detail: message,
                filter_active: if close_filter {
                    false
                } else {
                    m.filter_active
                },
                filter_focused: if close_filter {
                    false
                } else {
                    m.filter_focused
                },
                ..m
            },
            a,
        ),
        MessageListAction::FocusFilter => (
            MessageScreenModel { filter_active: true, filter_focused: true, ..m },
            MessageListAction::Nothing,
        ),
        MessageListAction::FilterPush(c) => {
            let r = refiltered(m, m.filter.push(c), m.advanced);
            (MessageScreenModel { cursor: first_row_or(r, None), ..r }, MessageListAction::Nothing)
        },
        MessageListAction::FilterPop => {
            let f = if m.filter.len() > 0 {
                m.filter.drop_last()
            } else {
                m.filter
            };
            let r = refiltered(m, f, m.advanced);
            (MessageScreenModel { cursor: first_row_or(r, None), ..r }, MessageListAction::Nothing)
        },
        MessageListAction::ToggleAdvanced => {
            let r = refiltered(m, m.filter, !m.advanced);
            (MessageScreenModel { cursor: first_row_or(r, m.cursor), ..r }, MessageListAction::Nothing)
        },
        MessageListAction::LeaveFilter(c) => (
            MessageScreenModel { filter_focused: false, cursor: c, ..m },
            MessageListAction::Nothing,
        ),
        MessageListAction::CloseFilter { clear } => {
            let closed = MessageScreenModel { filter_active: false, filter_focused: false, ..m };
            if clear {
                let r = refiltered(closed, Seq::empty(), m.advanced);
                (MessageScreenModel { cursor: first_row_or(r, m.cursor), ..r }, MessageListAction::Nothing)
            } else {
                (closed, MessageListAction::Nothing)
            }
        },
        MessageListAction::SetFetchCount(n) => (MessageScreenModel { fetch_count: n, ..m }, a),
        MessageListAction::ToggleSelection(c) => (
            MessageScreenModel { selection: toggled(m.selection, m.cursor, m.filtered), cursor: c, ..m },
            MessageListAction::Nothing,
        ),
        MessageListAction::SelectAll => (
            MessageScreenModel { selection: select_all_spec(m.selection, m.filtered), ..m },
            MessageListAction::Nothing,
        ),
        MessageListAction::SetAutoRefresh(on) => (MessageScreenModel { auto_refresh: on, ..m }, a),
        MessageListAction::ClearSelection => (
            MessageScreenModel { selection: Set::empty(), ..m },
            MessageListAction::Nothing,
        ),
        MessageListAction::Leave => (
            MessageScreenModel {
                screen: Screen::QueueList,
                messages: Seq::empty(),
                filtered: Seq::empty(),
                selection: Set::empty(),
                cursor: None,
                filter: Seq::empty(),
                filter_active: false,
                filter_focused: false,
                auto_refresh: false,
                ..m
            },
            MessageListAction::Nothing,
        ),
        _ => (m, a),
    }
}

/// Sets the filter and puts the cursor on the first shown row, or
/// `otherwise` when none is shown.
fn refilter_to(b: &mut MessageBrowser, filter: String, advanced: bool, otherwise: Option<usize>)
    ensures
        final(b).filter_view() == filter@,
        final(b).advanced_view() == advanced,
        final(b).filtered_view() == message_positions(old(b).messages_view(), filter@, advanced),
        final(b).messages_view() == old(b).messages_view(),
        final(b).selected_view() == old(b).selected_view(),
        final(b).cursor_view() == (if final(b).filtered_view().len() > 0 {
            Some(0usize)
        } else {
            otherwise
        }),
{
    b.set_filter(filter, advanced);
    if b.filtered().len() > 0 {
        b.set_cursor(Some(0));
    } else {
        b.set_cursor(otherwise);
    }
}

/// Carries out an action on the message list; returns what is left for
/// the caller.
pub fn apply_message_action(s: &mut MessageScreen, a: MessageListAction) -> (r: MessageListAction)
    ensures
        (final(s)@, r) == message_apply_spec(old(s)@, a),
{
    match a {
        MessageListAction::MoveCursor(c) => {
            s.browser.set_cursor(c);
            MessageListAction::Nothing
        },
        MessageListAction::OpenMessage { message, close_filter } => {
            s.screen = Screen::MessageDetail;
            s.detail = message;
            if close_filter {
                s.filter_active = false;
                s.filter_focused = false;
            }
            a
        },
        MessageListAction::FocusFilter => {
            s.filter_active = true;
            s.filter_focused = true;
            MessageListAction::Nothing
        },
        MessageListAction::FilterPush(c) => {
            let mut f = owned(s.browser.filter());
            push_char(&mut f, c);
            let adv = s.browser.is_advanced();
            refilter_to(&mut s.browser, f, adv, None);
            MessageListAction::Nothing
        },
        MessageListAction::FilterPop => {
            let mut f = owned(s.browser.filter());
            let _ = pop_char(&mut f);
            let adv = s.browser.is_advanced();
            refilter_to(&mut s.browser, f, adv, None);
            MessageListAction::Nothing
        },
        MessageListAction::ToggleAdvanced => {
            let f = owned(s.browser.filter());
            let adv = s.browser.is_advanced();
            let c = s.browser.cursor();
            refilter_to(&mut s.browser, f, !adv, c);
            MessageListAction::Nothing
        },
        MessageListAction::LeaveFilter(c) => {
            s.filter_focused = false;
            s.browser.set_cursor(c);
            MessageListAction::Nothing
        },
        MessageListAction::CloseFilter { clear } => {
            s.filter_active = false;
            s.filter_focused = false;
            if clear {
                let adv = s.browser.is_advanced();
                let c = s.browser.cursor();
                refilter_to(&mut s.browser, String::new(), adv, c);
            }
            MessageListAction::Nothing
        },
        MessageListAction::SetFetchCount(n) => {
            s.fetch_count = n;
            a
        },
        MessageListAction::ToggleSelection(c) => {
            s.browser.toggle_message_selection();
            s.browser.set_cursor(c);
            MessageListAction::Nothing
        },
        MessageListAction::SelectAll => {
            s.browser.select_all_messages();
            MessageListAction::Nothing
        },
        MessageListAction::SetAutoRefresh(on) => {
            s.auto_refresh = on;
            a
        },
        MessageListAction::ClearSelection => {
            s.browser.clear_selection();
            MessageListAction::Nothing
        },
        MessageListAction::Leave => {
            s.screen = Screen::QueueList;
            s.browser.clear();
            let adv = s.browser.is_advanced();
            s.browser.set_filter(String::new(), adv);
            s.filter_active = false;
            s.filter_focused = false;
            s.auto_refresh = false;
            MessageListAction::Nothing
        },
        _ => a,
    }
}

/// What the message list handler reads besides the list itself.
#[derive(Debug, Clone, Copy)]
pub struct MessageListContext {
    /// A queue is open.
    pub has_queue: bool,
    pub has_scheduled: bool,
    /// A broker is connected, and it is Kafka.
    pub connected: bool,
    pub kafka: bool,
    /// The queue has saved filters.
    pub has_saved_filters: bool,
    /// Ctrl is held.
    pub ctrl: bool,
}

/// The message under the cursor, by position among the loaded ones.
pub open spec fn highlighted_of(m: MessageScreenModel) -> Option<usize> {
    match m.cursor {
        Some(c) => if c < m.filtered.len() {
            Some(m.filtered[c as int])
        } else {
            None
        },
        None => None,
    }
}

/// What the handler reads of the message list.
pub open spec fn list_state_of(m: MessageScreenModel, c: MessageListContext) -> MessageListState {
    MessageListState {
        filter_active: m.filter_active,
        filter_focused: m.filter_focused,
        filter_empty: m.filter.len() == 0,
        cursor: m.cursor,
        loaded: m.messages.len() as usize,
        shown: m.filtered.len() as usize,
        highlighted: highlighted_of(m),
        selected: m.selection.len() as usize,
        targets: if m.selection.len() > 0 {
            m.selection.len() as usize
        } else if m.cursor is Some {
            1usize
        } else {
            0usize
        },
        has_queue: c.has_queue,
        fetch_count: m.fetch_count,
        has_scheduled: c.has_scheduled,
        auto_refresh: m.auto_refresh,
        connected: c.connected,
        kafka: c.kafka,
        has_saved_filters: c.has_saved_filters,
        ctrl: c.ctrl,
    }
}

/// Reads what the handler needs of the message list.
pub fn message_list_state(s: &MessageScreen, c: &MessageListContext) -> (r: MessageListState)
    ensures
        r == list_state_of(s@, *c),
{
    let sel = s.browser.selected();
    proof {
        lemma_increasing_set(sel@);
    }
    MessageListState {
        filter_active: s.filter_active,
        filter_focused: s.filter_focused,
        filter_empty: s.browser.filter().is_empty(),
        cursor: s.browser.cursor(),
        loaded: s.browser.messages().len(),
        shown: s.browser.filtered().len(),
        highlighted: s.browser.highlighted_position(),
        selected: sel.len(),
        targets: s.browser.selection_count(),
        has_queue: c.has_queue,
        fetch_count: s.fetch_count,
        has_scheduled: c.has_scheduled,
        auto_refresh: s.auto_refresh,
        connected: c.connected,
        kafka: c.kafka,
        has_saved_filters: c.has_saved_filters,
        ctrl: c.ctrl,
    }
}

/// A key on the message list (no popup open): decides the action from the
/// list's state, carries it out, and returns what is left for the caller.
pub fn message_list_key(s: &mut MessageScreen, k: Key, c: &MessageListContext) -> (r: MessageListAction)
    ensures
        (final(s)@, r) == message_apply_spec(old(s)@, message_list_spec(k, list_state_of(old(s)@, *c))),
{
    let st = message_list_state(s, c);
    let a = handle_message_list_key(k, &st);
    apply_message_action(s, a)
}

/// Esc goes back in two steps: with messages selected (and no filter
/// open) it clears the selection and stays; pressed again it returns to
/// the queue list, emptying the messages and the filter and turning
/// auto-refresh off.
pub proof fn lemma_escape_twice(m: MessageScreenModel, c: MessageListContext)
    requires
        !m.filter_active,
        m.selection.finite(),
        0 < m.selection.len() <= usize::MAX,
    ensures
        ({
            let (m1, a1) = message_apply_spec(m, message_list_spec(Key::Esc, list_state_of(m, c)));
            let (m2, a2) = message_apply_spec(m1, message_list_spec(Key::Esc, list_state_of(m1, c)));
            &&& m1.selection == Set::<usize>::empty()
            &&& m1.screen == m.screen
            &&& m1.messages == m.messages
            &&& m1.filter == m.filter
            &&& m2.screen == Screen::QueueList
            &&& m2.messages.len() == 0
            &&& m2.filter.len() == 0
            &&& !m2.filter_active
            &&& !m2.auto_refresh
        }),
{
    let (m1, a1) = message_apply_spec(m, message_list_spec(Key::Esc, list_state_of(m, c)));
    assert(m1.selection.len() == 0);
}

// ---------------------------------------------------------------------------
// The queue list
// ---------------------------------------------------------------------------

/// The state of the queue list that its keys change.
pub struct QueueScreen {
    pub browser: QueueBrowser,
    pub screen: Screen,
    pub filter_active: bool,
    pub filter_focused: bool,
    pub fetch_count: u32,
    /// The queue whose messages are browsed.
    pub current_queue: String,
    /// A broker is connected.
    pub connected: bool,
}

/// The queue list state as values.
#[verifier::ext_equal]
pub struct QueueScreenModel {
    pub names: Seq<String>,
    pub filter: Seq<char>,
    pub filtered: Seq<usize>,
    pub cursor: Option<usize>,
    pub screen: Screen,
    pub filter_active: bool,
    pub filter_focused: bool,
    pub fetch_count: u32,
    pub current_queue: Seq<char>,
    pub connected: bool,
}

impl View for QueueScreen {
    type V = QueueScreenModel;

    open spec fn view(&self) -> QueueScreenModel {
        QueueScreenModel {
            names: self.browser.names@,
            filter: self.browser.filter@,
            filtered: self.browser.filtered@,
            cursor: self.browser.cursor,
            screen: self.screen,
            filter_active: self.filter_active,
            filter_focused: self.filter_focused,
            fetch_count: self.fetch_count,
            current_queue: self.current_queue@,
            connected: self.connected,
        }
    }
}

/// The queue list with the filter set to `filter`: the shown queues chosen
/// again, and the cursor on the first row when there is one.
pub open spec fn queue_refiltered(m: QueueScreenModel, filter: Seq<char>) -> QueueScreenModel {
    let f = queue_positions(m.names, filter);
    QueueScreenModel {
        filter,
        filtered: f,
        cursor: if f.len() > 0 {
            Some(0usize)
        } else {
            m.cursor
        },
        ..m
    }
}

/// Whether an action on the queue list leaves the message list empty
/// (opening a queue, or disconnecting).
pub open spec fn empties_messages(a: QueueListAction) -> bool {
    a is OpenQueue || a is Disconnect
}

/// The queue list after an action, and what is left for the caller:
/// `Nothing` when the action is all carried out, else the action itself
/// (a popup, a load, a status line, quitting).
pub open spec fn queue_apply_spec(m: QueueScreenModel, a: QueueListAction) -> (QueueScreenModel, QueueListAction) {
    match a {
        QueueListAction::MoveCursor(c) => (QueueScreenModel { cursor: c, ..m }, QueueListAction::Nothing),
        QueueListAction::OpenQueue { queue, close_filter } => (
            QueueScreenModel {
                screen: Screen::MessageList,
                current_queue: if queue < m.names.len() {
                    m.names[queue as int]@
                } else {
                    m.current_queue
                },
                filter_active: if close_filter {
                    false
                } else {
                    m.filter_active
                },
                filter_focused: if close_filter {
                    false
                } else {
                    m.filter_focused
                },
                ..m
            },
            a,
        ),
        QueueListAction::FocusFilter => (
            QueueScreenModel { filter_active: true, filter_focused: true, ..m },
            QueueListAction::Nothing,
        ),
        QueueListAction::FilterPush(c) => (queue_refiltered(m, m.filter.push(c)), QueueListAction::Nothing),
        QueueListAction::FilterPop => (
            queue_refiltered(
                m,
                if m.filter.len() > 0 {
                    m.filter.drop_last()
                } else {
                    m.filter
                },
            ),
            QueueListAction::Nothing,
        ),
        QueueListAction::LeaveFilter(c) => (
            QueueScreenModel { filter_focused: false, cursor: c, ..m },
            QueueListAction::Nothing,
        ),
        QueueListAction::CloseFilter { clear } => {
            let closed = QueueScreenModel { filter_active: false, filter_focused: false, ..m };
            if clear {
                (
                    QueueScreenModel {
                        filter: Seq::empty(),
                        filtered: queue_positions(m.names, Seq::empty()),
                        ..closed
                    },
                    QueueListAction::Nothing,
                )
            } else {
                (closed, QueueListAction::Nothing)
            }
        },
        QueueListAction::SetFetchCount(n) => (QueueScreenModel { fetch_count: n, ..m }, a),
        QueueListAction::Disconnect => (
            QueueScreenModel {
                screen: Screen::ProfileSelect,
                connected: false,
                names: Seq::empty(),
                filtered: Seq::empty(),
                filter: Seq::empty(),
                current_queue: Seq::empty(),
                ..m
            },
            a,
        ),
        _ => (m, a),
    }
}

/// Carries out an action on the queue list; opening a queue and
/// disconnecting also empty the message list. Returns what is left for the
/// caller.
pub fn apply_queue_action(s: &mut QueueScreen, msgs: &mut MessageBrowser, a: QueueListAction) -> (r:
    QueueListAction)
    ensures
        (final(s)@, r) == queue_apply_spec(old(s)@, a),
        empties_messages(a) ==> {
            &&& final(msgs).messages_view().len() == 0
            &&& final(msgs).filtered_view().len() == 0
            &&& final(msgs).selection() == Set::<usize>::empty()
            &&& final(msgs).cursor_view() is None
            &&& final(msgs).filter_view() == old(msgs).filter_view()
        },
        !empties_messages(a) ==> {
            &&& final(msgs).messages_view() == old(msgs).messages_view()
            &&& final(msgs).filtered_view() == old(msgs).filtered_view()
            &&& final(msgs).selected_view() == old(msgs).selected_view()
            &&& final(msgs).cursor_view() == old(msgs).cursor_view()
            &&& final(msgs).filter_view() == old(msgs).filter_view()
        },
{
    match a {
        QueueListAction::MoveCursor(c) => {
            s.browser.cursor = c;
            QueueListAction::Nothing
        },
        QueueListAction::OpenQueue { queue, close_filter } => {
            if queue < s.browser.names.len() {
                s.current_queue = s.browser.names[queue].clone();
            }
            s.screen = Screen::MessageList;
            if close_filter {
                s.filter_active = false;
                s.filter_focused = false;
            }
            msgs.clear();
            assert(msgs.selected_view().to_set() =~= Set::<usize>::empty());
            a
        },
        QueueListAction::FocusFilter => {
            s.filter_active = true;
            s.filter_focused = true;
            QueueListAction::Nothing
        },
        QueueListAction::FilterPush(c) => {
            push_char(&mut s.browser.filter, c);
            s.browser.refilter();
            if s.browser.filtered.len() > 0 {
                s.browser.cursor = Some(0);
            }
            QueueListAction::Nothing
        },
        QueueListAction::FilterPop => {
            let _ = pop_char(&mut s.browser.filter);
            s.browser.refilter();
            if s.browser.filtered.len() > 0 {
                s.browser.cursor = Some(0);
            }
            QueueListAction::Nothing
        },
        QueueListAction::LeaveFilter(c) => {
            s.filter_focused = false;
            s.browser.cursor = c;
            QueueListAction::Nothing
        },
        QueueListAction::CloseFilter { clear } => {
            s.filter_active = false;
            s.filter_focused = false;
            if clear {
                s.browser.filter = String::new();
                s.browser.refilter();
            }
            QueueListAction::Nothing
        },
        QueueListAction::SetFetchCount(n) => {
            s.fetch_count = n;
            a
        },
        QueueListAction::Disconnect => {
            s.screen = Screen::ProfileSelect;
            s.connected = false;
            s.browser.names = Vec::new();
            s.browser.filtered = Vec::new();
            s.browser.filter = String::new();
            s.current_queue = String::new();
            msgs.clear();
            assert(msgs.selected_view().to_set() =~= Set::<usize>::empty());
            a
        },
        _ => a,
    }
}

// ---------------------------------------------------------------------------
// Popups
// ---------------------------------------------------------------------------

/// The state a popup's keys change.
pub struct PopupScreen {
    pub popup: Popup,
    /// The cursor of the popup's list.
    pub cursor: Option<usize>,
    /// How far the popup's text is scrolled.
    pub scroll: u16,
    /// The tab the comparison view shows.
    pub tab: ComparisonTab,
    /// The theme in use, by row of the theme picker.
    pub theme: usize,
    pub fetch_count: u32,
}

/// The exchange and routing key a re-route takes from the confirmation
/// it closes.
pub open spec fn reroute_taken(p: Popup, step: PopupStep) -> Option<(Seq<char>, Seq<char>)> {
    match step {
        PopupStep::Reroute => match p {
            Popup::ConfirmReroute { exchange, routing_key, .. } => Some((exchange@, routing_key@)),
            _ => None,
        },
        _ => None,
    }
}

/// What is left for the caller after a popup step: the step to carry out,
/// and for a re-route the exchange and routing key it goes to.
pub struct PopupOutcome {
    pub step: PopupStep,
    pub reroute: Option<(String, String)>,
}

/// The popup state after a step decided by a popup's key, and what is
/// left for the caller: `Nothing` when the step is all carried out, else
/// the step itself. Steps that start work (connecting, switching the
/// namespace, saving the theme, purging, deleting, resetting offsets)
/// close the popup and are handed on; so does re-routing, with the
/// exchange and routing key taken from the confirmation (see
/// `reroute_taken`); steps that other handlers take are handed on
/// unchanged.
pub open spec fn popup_apply_spec(
    p: Popup,
    cursor: Option<usize>,
    scroll: u16,
    tab: ComparisonTab,
    theme: usize,
    fetch_count: u32,
    step: PopupStep,
) -> (Popup, Option<usize>, u16, ComparisonTab, usize, u32, PopupStep) {
    match step {
        PopupStep::Nothing => (p, cursor, scroll, tab, theme, fetch_count, PopupStep::Nothing),
        PopupStep::Close => (Popup::Closed, cursor, scroll, tab, theme, fetch_count, PopupStep::Nothing),
        PopupStep::MoveCursor(c) => (p, c, scroll, tab, theme, fetch_count, PopupStep::Nothing),
        PopupStep::PreviewTheme { cursor: c, theme: t } => (
            p,
            c,
            scroll,
            tab,
            match t {
                Some(x) => x,
                None => theme,
            },
            fetch_count,
            PopupStep::Nothing,
        ),
        PopupStep::ApplyTheme(t) => (Popup::Closed, cursor, scroll, tab, t, fetch_count, step),
        PopupStep::SetFetchCount(n) => (Popup::Closed, cursor, scroll, tab, theme, n, step),
        PopupStep::ConnectProfile(_) | PopupStep::SwitchNamespace(_) | PopupStep::Purge
        | PopupStep::DeleteQueue | PopupStep::DeleteSelected | PopupStep::ResetOffsets
        | PopupStep::Reroute => (
            Popup::Closed,
            cursor,
            scroll,
            tab,
            theme,
            fetch_count,
            step,
        ),
        PopupStep::BackToPublish => (Popup::PublishMessage, cursor, scroll, tab, theme, fetch_count, PopupStep::Nothing),
        PopupStep::BackToGroups => (Popup::ConsumerGroups, cursor, scroll, tab, theme, fetch_count, PopupStep::Nothing),
        PopupStep::Scroll(v) => (p, cursor, v, tab, theme, fetch_count, PopupStep::Nothing),
        PopupStep::ShowTab(t) => (p, cursor, 0, t, theme, fetch_count, PopupStep::Nothing),
        _ => (p, cursor, scroll, tab, theme, fetch_count, step),
    }
}

/// Carries out a popup step; returns what is left for the caller.
pub fn apply_popup_step(s: &mut PopupScreen, step: PopupStep) -> (out: PopupOutcome)
    ensures
        (final(s).popup, final(s).cursor, final(s).scroll, final(s).tab, final(s).theme, final(s).fetch_count, out.step)
            == popup_apply_spec(
            old(s).popup,
            old(s).cursor,
            old(s).scroll,
            old(s).tab,
            old(s).theme,
            old(s).fetch_count,
            step,
        ),
        (match out.reroute {
            Some(x) => Some((x.0@, x.1@)),
            None => None,
        }) == reroute_taken(old(s).popup, step),
{
    let mut reroute: Option<(String, String)> = None;
    let left = match step {
        PopupStep::Nothing => PopupStep::Nothing,
        PopupStep::Close => {
            s.popup = Popup::Closed;
            PopupStep::Nothing
        },
        PopupStep::MoveCursor(c) => {
            s.cursor = c;
            PopupStep::Nothing
        },
        PopupStep::PreviewTheme { cursor, theme } => {
            s.cursor = cursor;
            if let Some(t) = theme {
                s.theme = t;
            }
            PopupStep::Nothing
        },
        PopupStep::ApplyTheme(t) => {
            s.theme = t;
            s.popup = Popup::Closed;
            step
        },
        PopupStep::SetFetchCount(n) => {
            s.fetch_count = n;
            s.popup = Popup::Closed;
            step
        },
        PopupStep::ConnectProfile(_) | PopupStep::SwitchNamespace(_) | PopupStep::Purge
        | PopupStep::DeleteQueue | PopupStep::DeleteSelected | PopupStep::ResetOffsets => {
            s.popup = Popup::Closed;
            step
        },
        PopupStep::Reroute => {
            reroute = match &s.popup {
                Popup::ConfirmReroute { exchange, routing_key, .. } => Some((exchange.clone(), routing_key.clone())),
                _ => None,
            };
            s.popup = Popup::Closed;
            step
        },
        PopupStep::BackToPublish => {
            s.popup = Popup::PublishMessage;
            PopupStep::Nothing
        },
        PopupStep::BackToGroups => {
            s.popup = Popup::ConsumerGroups;
            PopupStep::Nothing
        },
        PopupStep::Scroll(v) => {
            s.scroll = v;
            PopupStep::Nothing
        },
        PopupStep::ShowTab(t) => {
            s.tab = t;
            s.scroll = 0;
            PopupStep::Nothing
        },
        _ => step,
    };
    PopupOutcome { step: left, reroute }
}

} // verus!
