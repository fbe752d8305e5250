//! What a key press does on the queue list, the message list and the list
//! and confirmation popups: each handler reads the state it depends on and
//! answers with the action the caller carries out.

use vstd::prelude::*;
use crate::comparison::ComparisonTab;
use crate::model::OffsetResetStrategy;
use crate::session::{cursor_down_spec, cursor_up_spec, cursor_down, cursor_up, fetch_less, fetch_less_spec, fetch_more, fetch_more_spec, fetch_preset_index, fetch_preset_index_spec, QueueOperation};
use crate::session::Screen;
use crate::text::{owned, parse_i64, parse_i64_spec, push_str};
use crate::updater::UpdateChecker;

verus! {

/// A key, as far as the handlers tell keys apart.
#[derive(Debug, Clone, Copy, PartialEq, Eq, Structural)]
pub enum Key {
    Char(char),
    Enter,
    Esc,
    Up,
    Down,
    Tab,
    BackTab,
    Backspace,
    Delete,
    PageUp,
    PageDown,
    /// A function key, by number.
    F(u8),
    Other,
}

/// Down: `j` or the arrow.
pub open spec fn is_down(k: Key) -> bool {
    k == Key::Char('j') || k == Key::Down
}

/// Up: `k` or the arrow.
pub open spec fn is_up(k: Key) -> bool {
    k == Key::Char('k') || k == Key::Up
}

fn down_key(k: Key) -> (r: bool)
    ensures
        r == is_down(k),
{
    k == Key::Char('j') || k == Key::Down
}

fn up_key(k: Key) -> (r: bool)
    ensures
        r == is_up(k),
{
    k == Key::Char('k') || k == Key::Up
}

// ---------------------------------------------------------------------------
// The queue list
// ---------------------------------------------------------------------------

/// What the queue list handler reads.
#[derive(Debug, Clone, Copy, PartialEq, Eq, Structural)]
pub struct QueueListState {
    /// A filter is being typed or applied.
    pub filter_active: bool,
    /// The filter input has the focus.
    pub filter_focused: bool,
    /// The filter text is empty.
    pub filter_empty: bool,
    /// The cursor among the shown queues.
    pub cursor: Option<usize>,
    /// How many queues are shown.
    pub shown: usize,
    /// The queue under the cursor, by position in the full list.
    pub selected: Option<usize>,
    /// Whether there are namespaces to pick from.
    pub has_namespaces: bool,
    /// Where the namespace picker opens (the current namespace's row).
    pub namespace_row: usize,
    pub fetch_count: u32,
    /// Whether messages are scheduled.
    pub has_scheduled: bool,
    /// Whether a broker is connected, and whether it speaks MQTT.
    pub connected: bool,
    pub mqtt: bool,
}

/// What a key on the queue list asks for.
#[derive(Debug, Clone, Copy, PartialEq, Eq, Structural)]
pub enum QueueListAction {
    Nothing,
    Quit,
    ShowHelp,
    /// Put the cursor here.
    MoveCursor(Option<usize>),
    /// Browse the messages of the queue at this position (the filter, when
    /// `close_filter`, is closed).
    OpenQueue { queue: usize, close_filter: bool },
    /// Focus the filter input (opening the filter).
    FocusFilter,
    /// Add a character to the filter, or take the last one off.
    FilterPush(char),
    FilterPop,
    /// Leave the filter input, keeping the filter, and put the cursor here.
    LeaveFilter(Option<usize>),
    /// Close the filter (clearing its text when `clear`).
    CloseFilter { clear: bool },
    Reload,
    /// Open the namespace picker on this row.
    PickNamespace(usize),
    PickProfile,
    /// Disconnect and return to the profiles.
    Disconnect,
    /// Open the fetch count picker on this row.
    PickFetchCount(usize),
    SetFetchCount(u32),
    /// Pick a queue to compare the selected one with.
    Compare(usize),
    Publish(usize),
    ConfirmPurge(usize),
    ConfirmDelete(usize),
    /// Pick the queue to copy or move the selected queue's messages to.
    PickTarget(usize, QueueOperation),
    ConsumerGroups(usize),
    QueueInfo(usize),
    ShowScheduled,
    NoScheduled,
    Topology,
    Benchmark(usize),
    Permissions,
    Retained,
    /// Retained messages need an MQTT broker.
    RetainedNeedsMqtt,
}

/// What a key does while the filter input has the focus.
pub open spec fn queue_filter_spec(k: Key, s: QueueListState) -> QueueListAction {
    match k {
        Key::Char(c) => QueueListAction::FilterPush(c),
        Key::Backspace => QueueListAction::FilterPop,
        Key::Tab => QueueListAction::LeaveFilter(s.cursor),
        Key::Down => QueueListAction::LeaveFilter(
            if s.shown > 0 {
                cursor_down_spec(s.cursor, s.shown)
            } else {
                s.cursor
            },
        ),
        Key::Up => QueueListAction::LeaveFilter(cursor_up_spec(s.cursor)),
        Key::Enter => match s.cursor {
            Some(c) => if c < s.shown && s.selected is Some {
                QueueListAction::OpenQueue { queue: s.selected->0, close_filter: true }
            } else {
                QueueListAction::Nothing
            },
            None => QueueListAction::Nothing,
        },
        Key::Esc => if s.filter_empty {
            QueueListAction::CloseFilter { clear: false }
        } else {
            QueueListAction::LeaveFilter(s.cursor)
        },
        _ => QueueListAction::Nothing,
    }
}

/// An action on the queue under the cursor, or nothing without one.
pub open spec fn on_selected(s: QueueListState, a: QueueListAction) -> QueueListAction {
    if s.selected is Some {
        a
    } else {
        QueueListAction::Nothing
    }
}

/// What a key does on the queue list when no popup is open.
pub open spec fn queue_list_spec(k: Key, s: QueueListState) -> QueueListAction {
    if s.filter_active && s.filter_focused {
        queue_filter_spec(k, s)
    } else if s.filter_active && k == Key::BackTab {
        QueueListAction::FocusFilter
    } else {
        let q = match s.selected {
            Some(i) => i,
            None => 0,
        };
        match k {
            Key::Char('q') => QueueListAction::Quit,
            Key::Char('?') => QueueListAction::ShowHelp,
            Key::Char('j') | Key::Down => QueueListAction::MoveCursor(
                if s.shown > 0 {
                    cursor_down_spec(s.cursor, s.shown)
                } else {
                    s.cursor
                },
            ),
            Key::Char('k') | Key::Up => QueueListAction::MoveCursor(cursor_up_spec(s.cursor)),
            Key::Enter => match s.cursor {
                Some(c) => if c < s.shown && s.selected is Some {
                    QueueListAction::OpenQueue { queue: q, close_filter: false }
                } else {
                    QueueListAction::Nothing
                },
                None => QueueListAction::Nothing,
            },
            Key::Char('/') => QueueListAction::FocusFilter,
            Key::Char('r') | Key::Char('R') => QueueListAction::Reload,
            Key::Char('v') => if s.has_namespaces {
                QueueListAction::PickNamespace(s.namespace_row)
            } else {
                QueueListAction::Nothing
            },
            Key::Char('p') => QueueListAction::PickProfile,
            Key::Esc => if s.filter_active {
                QueueListAction::CloseFilter { clear: true }
            } else {
                QueueListAction::Disconnect
            },
            Key::Char('f') => QueueListAction::PickFetchCount(
                fetch_preset_index_spec(s.fetch_count) as usize,
            ),
            Key::Char('+') => QueueListAction::SetFetchCount(fetch_more_spec(s.fetch_count)),
            Key::Char('-') => QueueListAction::SetFetchCount(fetch_less_spec(s.fetch_count)),
            Key::Char('=') => on_selected(s, QueueListAction::Compare(q)),
            Key::Char('P') => on_selected(s, QueueListAction::Publish(q)),
            Key::Char('x') => on_selected(s, QueueListAction::ConfirmPurge(q)),
            Key::Char('D') => on_selected(s, QueueListAction::ConfirmDelete(q)),
            Key::Char('C') => on_selected(s, QueueListAction::PickTarget(q, QueueOperation::Copy)),
            Key::Char('m') => on_selected(s, QueueListAction::PickTarget(q, QueueOperation::Move)),
            Key::Char('G') => on_selected(s, QueueListAction::ConsumerGroups(q)),
            Key::Char('i') => on_selected(s, QueueListAction::QueueInfo(q)),
            Key::Char('S') => if s.has_scheduled {
                QueueListAction::ShowScheduled
            } else {
                QueueListAction::NoScheduled
            },
            Key::Char('X') => QueueListAction::Topology,
            Key::F(5) => on_selected(s, QueueListAction::Benchmark(q)),
            Key::Char('A') => QueueListAction::Permissions,
            Key::Char('H') => if !s.connected {
                QueueListAction::Nothing
            } else if s.mqtt {
                QueueListAction::Retained
            } else {
                QueueListAction::RetainedNeedsMqtt
            },
            _ => QueueListAction::Nothing,
        }
    }
}

fn queue_filter_key(k: Key, s: &QueueListState) -> (r: QueueListAction)
    ensures
        r == queue_filter_spec(k, *s),
{
    match k {
        Key::Char(c) => QueueListAction::FilterPush(c),
        Key::Backspace => QueueListAction::FilterPop,
        Key::Tab => QueueListAction::LeaveFilter(s.cursor),
        Key::Down => QueueListAction::LeaveFilter(
            if s.shown > 0 {
                cursor_down(s.cursor, s.shown)
            } else {
                s.cursor
            },
        ),
        Key::Up => QueueListAction::LeaveFilter(cursor_up(s.cursor)),
        Key::Enter => match s.cursor {
            Some(c) => if c < s.shown {
                match s.selected {
                    Some(q) => QueueListAction::OpenQueue { queue: q, close_filter: true },
                    None => QueueListAction::Nothing,
                }
            } else {
                QueueListAction::Nothing
            },
            None => QueueListAction::Nothing,
        },
        Key::Esc => if s.filter_empty {
            QueueListAction::CloseFilter { clear: false }
        } else {
            QueueListAction::LeaveFilter(s.cursor)
        },
        _ => QueueListAction::Nothing,
    }
}

/// The action a key asks for on the queue list (no popup open).
pub fn handle_queue_list_key(k: Key, s: &QueueListState) -> (r: QueueListAction)
    ensures
        r == queue_list_spec(k, *s),
{
    if s.filter_active && s.filter_focused {
        return queue_filter_key(k, s);
    }
    if s.filter_active && k == Key::BackTab {
        return QueueListAction::FocusFilter;
    }
    let q = match s.selected {
        Some(i) => i,
        None => 0,
    };
    let has = s.selected.is_some();
    if down_key(k) {
        return QueueListAction::MoveCursor(
            if s.shown > 0 {
                cursor_down(s.cursor, s.shown)
            } else {
                s.cursor
            },
        );
    }
    if up_key(k) {
        return QueueListAction::MoveCursor(cursor_up(s.cursor));
    }
    match k {
        Key::Char('q') => QueueListAction::Quit,
        Key::Char('?') => QueueListAction::ShowHelp,
        Key::Enter => match s.cursor {
            Some(c) => if c < s.shown && has {
                QueueListAction::OpenQueue { queue: q, close_filter: false }
            } else {
                QueueListAction::Nothing
            },
            None => QueueListAction::Nothing,
        },
        Key::Char('/') => QueueListAction::FocusFilter,
        Key::Char('r') | Key::Char('R') => QueueListAction::Reload,
        Key::Char('v') => if s.has_namespaces {
            QueueListAction::PickNamespace(s.namespace_row)
        } else {
            QueueListAction::Nothing
        },
        Key::Char('p') => QueueListAction::PickProfile,
        Key::Esc => if s.filter_active {
            QueueListAction::CloseFilter { clear: true }
        } else {
            QueueListAction::Disconnect
        },
        Key::Char('f') => QueueListAction::PickFetchCount(fetch_preset_index(s.fetch_count)),
        Key::Char('+') => QueueListAction::SetFetchCount(fetch_more(s.fetch_count)),
        Key::Char('-') => QueueListAction::SetFetchCount(fetch_less(s.fetch_count)),
        Key::Char('=') => if has { QueueListAction::Compare(q) } else { QueueListAction::Nothing },
        Key::Char('P') => if has { QueueListAction::Publish(q) } else { QueueListAction::Nothing },
        Key::Char('x') => if has {
            QueueListAction::ConfirmPurge(q)
        } else {
            QueueListAction::Nothing
        },
        Key::Char('D') => if has {
            QueueListAction::ConfirmDelete(q)
        } else {
            QueueListAction::Nothing
        },
        Key::Char('C') => if has {
            QueueListAction::PickTarget(q, QueueOperation::Copy)
        } else {
            QueueListAction::Nothing
        },
        Key::Char('m') => if has {
            QueueListAction::PickTarget(q, QueueOperation::Move)
        } else {
            QueueListAction::Nothing
        },
        Key::Char('G') => if has {
            QueueListAction::ConsumerGroups(q)
        } else {
            QueueListAction::Nothing
        },
        Key::Char('i') => if has { QueueListAction::QueueInfo(q) } else { QueueListAction::Nothing },
        Key::Char('S') => if s.has_scheduled {
            QueueListAction::ShowScheduled
        } else {
            QueueListAction::NoScheduled
        },
        Key::Char('X') => QueueListAction::Topology,
        Key::F(5) => if has { QueueListAction::Benchmark(q) } else { QueueListAction::Nothing },
        Key::Char('A') => QueueListAction::Permissions,
        Key::Char('H') => if !s.connected {
            QueueListAction::Nothing
        } else if s.mqtt {
            QueueListAction::Retained
        } else {
            QueueListAction::RetainedNeedsMqtt
        },
        _ => QueueListAction::Nothing,
    }
}

// ---------------------------------------------------------------------------
// Popups
// ---------------------------------------------------------------------------

/// What a key does in a popup that lists `len` rows with the cursor at
/// `cursor`: move, pick the row (when it is one), or close.
#[derive(Debug, Clone, Copy, PartialEq, Eq, Structural)]
pub enum ListAction {
    Nothing,
    Close,
    MoveCursor(Option<usize>),
    Pick(usize),
}

/// The list popup handler: `Esc` closes, `j`/`k` and the arrows move,
/// `Enter` picks the row under the cursor (or `default_row` without a
/// cursor) when there is such a row.
pub open spec fn list_popup_spec(k: Key, cursor: Option<usize>, len: usize, default_row: usize) -> ListAction {
    if k == Key::Esc {
        ListAction::Close
    } else if is_down(k) {
        ListAction::MoveCursor(
            if len > 0 {
                cursor_down_spec(cursor, len)
            } else {
                cursor
            },
        )
    } else if is_up(k) {
        ListAction::MoveCursor(cursor_up_spec(cursor))
    } else if k == Key::Enter {
        let row = match cursor {
            Some(c) => c,
            None => default_row,
        };
        if row < len {
            ListAction::Pick(row)
        } else {
            ListAction::Nothing
        }
    } else {
        ListAction::Nothing
    }
}

pub fn handle_list_popup_key(k: Key, cursor: Option<usize>, len: usize, default_row: usize) -> (r:
    ListAction)
    ensures
        r == list_popup_spec(k, cursor, len, default_row),
{
    if k == Key::Esc {
        ListAction::Close
    } else if down_key(k) {
        ListAction::MoveCursor(
            if len > 0 {
                cursor_down(cursor, len)
            } else {
                cursor
            },
        )
    } else if up_key(k) {
        ListAction::MoveCursor(cursor_up(cursor))
    } else if k == Key::Enter {
        let row = match cursor {
            Some(c) => c,
            None => default_row,
        };
        if row < len {
            ListAction::Pick(row)
        } else {
            ListAction::Nothing
        }
    } else {
        ListAction::Nothing
    }
}

/// Whether a key confirms a question: `y` or `Y`; any other key declines.
pub open spec fn confirms(k: Key) -> bool {
    k == Key::Char('y') || k == Key::Char('Y')
}

pub fn is_confirmation(k: Key) -> (r: bool)
    ensures
        r == confirms(k),
{
    k == Key::Char('y') || k == Key::Char('Y')
}

/// The scroll position after a key in a scrollable popup: one line or ten
/// lines down or up, never below zero nor past the largest position.
pub open spec fn scrolled(k: Key, scroll: u16) -> u16 {
    if is_down(k) {
        if scroll < u16::MAX {
            (scroll + 1) as u16
        } else {
            scroll
        }
    } else if is_up(k) {
        if scroll > 0 {
            (scroll - 1) as u16
        } else {
            0
        }
    } else if k == Key::PageDown {
        if scroll <= u16::MAX - 10 {
            (scroll + 10) as u16
        } else {
            u16::MAX
        }
    } else if k == Key::PageUp {
        if scroll >= 10 {
            (scroll - 10) as u16
        } else {
            0
        }
    } else {
        scroll
    }
}

pub fn handle_scroll_keys(k: Key, scroll: u16) -> (r: u16)
    ensures
        r == scrolled(k, scroll),
{
    if down_key(k) {
        scroll.saturating_add(1)
    } else if up_key(k) {
        scroll.saturating_sub(1)
    } else if k == Key::PageDown {
        scroll.saturating_add(10)
    } else if k == Key::PageUp {
        scroll.saturating_sub(10)
    } else {
        scroll
    }
}

/// The tab after `Tab` in the comparison view.
pub open spec fn next_tab_spec(t: ComparisonTab) -> ComparisonTab {
    match t {
        ComparisonTab::Summary => ComparisonTab::OnlyInA,
        ComparisonTab::OnlyInA => ComparisonTab::OnlyInB,
        ComparisonTab::OnlyInB => ComparisonTab::Summary,
    }
}

/// The tab after `Shift+Tab` in the comparison view.
pub open spec fn previous_tab_spec(t: ComparisonTab) -> ComparisonTab {
    match t {
        ComparisonTab::Summary => ComparisonTab::OnlyInB,
        ComparisonTab::OnlyInA => ComparisonTab::Summary,
        ComparisonTab::OnlyInB => ComparisonTab::OnlyInA,
    }
}

pub fn next_tab(t: ComparisonTab) -> (r: ComparisonTab)
    ensures
        r == next_tab_spec(t),
{
    match t {
        ComparisonTab::Summary => ComparisonTab::OnlyInA,
        ComparisonTab::OnlyInA => ComparisonTab::OnlyInB,
        ComparisonTab::OnlyInB => ComparisonTab::Summary,
    }
}

pub fn previous_tab(t: ComparisonTab) -> (r: ComparisonTab)
    ensures
        r == previous_tab_spec(t),
{
    match t {
        ComparisonTab::Summary => ComparisonTab::OnlyInB,
        ComparisonTab::OnlyInA => ComparisonTab::Summary,
        ComparisonTab::OnlyInB => ComparisonTab::OnlyInA,
    }
}

/// `Shift+Tab` undoes `Tab`, and three `Tab`s come back to the same tab.
pub proof fn lemma_tabs_cycle(t: ComparisonTab)
    ensures
        previous_tab_spec(next_tab_spec(t)) == t,
        next_tab_spec(previous_tab_spec(t)) == t,
        next_tab_spec(next_tab_spec(next_tab_spec(t))) == t,
{
}

/// What the offset-reset strategy picker leads to.
#[derive(Debug, Clone, Copy, PartialEq, Eq, Structural)]
pub enum ResetPick {
    Nothing,
    /// Back to the consumer groups.
    Back,
    MoveCursor(Option<usize>),
    /// Ask to confirm this strategy.
    Confirm(OffsetResetStrategy),
    /// Ask for a number (a timestamp or an offset).
    AskNumber,
}

/// The strategy picker (earliest, latest, to a timestamp, to an offset).
pub open spec fn reset_pick_spec(k: Key, cursor: Option<usize>) -> ResetPick {
    if k == Key::Esc {
        ResetPick::Back
    } else if is_down(k) {
        ResetPick::MoveCursor(cursor_down_spec(cursor, 4))
    } else if is_up(k) {
        ResetPick::MoveCursor(cursor_up_spec(cursor))
    } else if k == Key::Enter {
        let row = match cursor {
            Some(c) => c,
            None => 0,
        };
        if row == 0 {
            ResetPick::Confirm(OffsetResetStrategy::Earliest)
        } else if row == 1 {
            ResetPick::Confirm(OffsetResetStrategy::Latest)
        } else if row == 2 || row == 3 {
            ResetPick::AskNumber
        } else {
            ResetPick::Nothing
        }
    } else {
        ResetPick::Nothing
    }
}

pub fn handle_reset_picker_key(k: Key, cursor: Option<usize>) -> (r: ResetPick)
    ensures
        r == reset_pick_spec(k, cursor),
{
    if k == Key::Esc {
        ResetPick::Back
    } else if down_key(k) {
        ResetPick::MoveCursor(cursor_down(cursor, 4))
    } else if up_key(k) {
        ResetPick::MoveCursor(cursor_up(cursor))
    } else if k == Key::Enter {
        let row = match cursor {
            Some(c) => c,
            None => 0,
        };
        if row == 0 {
            ResetPick::Confirm(OffsetResetStrategy::Earliest)
        } else if row == 1 {
            ResetPick::Confirm(OffsetResetStrategy::Latest)
        } else if row == 2 || row == 3 {
            ResetPick::AskNumber
        } else {
            ResetPick::Nothing
        }
    } else {
        ResetPick::Nothing
    }
}

/// What the number input of an offset reset leads to.
#[derive(Debug, Clone, Copy, PartialEq, Eq, Structural)]
pub enum ResetInput {
    Nothing,
    /// Back to the strategy picker, on its first row.
    Back,
    /// Type this character (a digit or `-`).
    Type(char),
    Erase,
    Confirm(OffsetResetStrategy),
    /// The text is no number.
    Invalid,
}

/// The number input: digits and `-` are typed; `Enter` reads the text as a
/// timestamp when the picker stood on its third row (or on none), and as
/// an offset otherwise.
pub open spec fn reset_input_spec(k: Key, text: Seq<char>, picker: Option<usize>) -> ResetInput {
    match k {
        Key::Esc => ResetInput::Back,
        Key::Char(c) => if ('0' <= c && c <= '9') || c == '-' {
            ResetInput::Type(c)
        } else {
            ResetInput::Nothing
        },
        Key::Backspace => ResetInput::Erase,
        Key::Enter => match parse_i64_spec(text) {
            Some(v) => {
                let row = match picker {
                    Some(r) => r,
                    None => 2,
                };
                if row == 2 {
                    ResetInput::Confirm(OffsetResetStrategy::ToTimestamp(v as i64))
                } else {
                    ResetInput::Confirm(OffsetResetStrategy::ToOffset(v as i64))
                }
            },
            None => ResetInput::Invalid,
        },
        _ => ResetInput::Nothing,
    }
}

pub fn handle_reset_input_key(k: Key, text: &str, picker: Option<usize>) -> (r: ResetInput)
    ensures
        r == reset_input_spec(k, text@, picker),
{
    match k {
        Key::Esc => ResetInput::Back,
        Key::Char(c) => if ('0' <= c && c <= '9') || c == '-' {
            ResetInput::Type(c)
        } else {
            ResetInput::Nothing
        },
        Key::Backspace => ResetInput::Erase,
        Key::Enter => match parse_i64(text) {
            Some(v) => {
                let row = match picker {
                    Some(r) => r,
                    None => 2,
                };
                if row == 2 {
                    ResetInput::Confirm(OffsetResetStrategy::ToTimestamp(v))
                } else {
                    ResetInput::Confirm(OffsetResetStrategy::ToOffset(v))
                }
            },
            None => ResetInput::Invalid,
        },
        _ => ResetInput::Nothing,
    }
}

// ---------------------------------------------------------------------------
// The message list
// ---------------------------------------------------------------------------

/// What the message list handler reads.
#[derive(Debug, Clone, Copy, PartialEq, Eq, Structural)]
pub struct MessageListState {
    pub filter_active: bool,
    pub filter_focused: bool,
    pub filter_empty: bool,
    /// The cursor among the shown messages.
    pub cursor: Option<usize>,
    /// How many messages are loaded, and how many are shown.
    pub loaded: usize,
    pub shown: usize,
    /// The message under the cursor, by position among the loaded ones.
    pub highlighted: Option<usize>,
    /// How many messages are selected, and how many an action applies to.
    pub selected: usize,
    pub targets: usize,
    /// Whether a queue is open.
    pub has_queue: bool,
    pub fetch_count: u32,
    pub has_scheduled: bool,
    pub auto_refresh: bool,
    /// Whether a broker is connected, and whether it is Kafka.
    pub connected: bool,
    pub kafka: bool,
    /// Whether the queue has saved filters.
    pub has_saved_filters: bool,
    /// Whether Ctrl is held.
    pub ctrl: bool,
}

/// What a key on the message list asks for.
#[derive(Debug, Clone, Copy, PartialEq, Eq, Structural)]
pub enum MessageListAction {
    Nothing,
    Quit,
    ShowHelp,
    MoveCursor(Option<usize>),
    /// Show the message at this position (closing the filter when
    /// `close_filter`).
    OpenMessage { message: usize, close_filter: bool },
    FocusFilter,
    FilterPush(char),
    FilterPop,
    /// Switch between a plain filter and a filter expression.
    ToggleAdvanced,
    LeaveFilter(Option<usize>),
    CloseFilter { clear: bool },
    Reload,
    PickFetchCount(usize),
    SetFetchCount(u32),
    Publish,
    /// Toggle the highlighted message's selection, then put the cursor here.
    ToggleSelection(Option<usize>),
    SelectAll,
    PickTarget(QueueOperation),
    /// Diff the two selected messages.
    Diff,
    /// Diffing needs exactly two selected messages.
    DiffNeedsTwo,
    ConfirmDelete,
    Export,
    Dump,
    Import,
    /// Turn auto-refresh on or off.
    SetAutoRefresh(bool),
    ShowScheduled,
    NoScheduled,
    Replay,
    ReplayNeedsKafka,
    SavedFilters,
    NoSavedFilters,
    SaveFilter,
    NoFilterToSave,
    /// Offer to send the dead-lettered messages back.
    Reroute,
    ClearSelection,
    /// Back to the queue list.
    Leave,
}

/// What a key does while the message filter input has the focus.
pub open spec fn message_filter_spec(k: Key, s: MessageListState) -> MessageListAction {
    match k {
        Key::Tab => MessageListAction::ToggleAdvanced,
        Key::Char(c) => MessageListAction::FilterPush(c),
        Key::Backspace => MessageListAction::FilterPop,
        Key::Down => MessageListAction::LeaveFilter(
            if s.shown > 0 {
                cursor_down_spec(s.cursor, s.shown)
            } else {
                s.cursor
            },
        ),
        Key::Up => MessageListAction::LeaveFilter(cursor_up_spec(s.cursor)),
        Key::Enter => match s.cursor {
            Some(c) => if c < s.shown && s.highlighted is Some {
                MessageListAction::OpenMessage { message: s.highlighted->0, close_filter: true }
            } else {
                MessageListAction::Nothing
            },
            None => MessageListAction::Nothing,
        },
        Key::Esc => if s.filter_empty {
            MessageListAction::CloseFilter { clear: false }
        } else {
            MessageListAction::LeaveFilter(s.cursor)
        },
        _ => MessageListAction::Nothing,
    }
}

/// What a key does on the message list when no popup is open.
pub open spec fn message_list_spec(k: Key, s: MessageListState) -> MessageListAction {
    if s.filter_active && s.filter_focused {
        message_filter_spec(k, s)
    } else if s.filter_active && k == Key::BackTab {
        MessageListAction::FocusFilter
    } else {
        match k {
            Key::Char('q') => MessageListAction::Quit,
            Key::Char('?') => MessageListAction::ShowHelp,
            Key::Char('j') | Key::Down => MessageListAction::MoveCursor(
                if s.loaded > 0 {
                    cursor_down_spec(s.cursor, s.loaded)
                } else {
                    s.cursor
                },
            ),
            Key::Char('k') | Key::Up => MessageListAction::MoveCursor(cursor_up_spec(s.cursor)),
            Key::Enter => match s.cursor {
                Some(c) => if c < s.shown && s.highlighted is Some {
                    MessageListAction::OpenMessage { message: s.highlighted->0, close_filter: false }
                } else {
                    MessageListAction::Nothing
                },
                None => MessageListAction::Nothing,
            },
            Key::Char('/') => MessageListAction::FocusFilter,
            Key::Char('r') | Key::Char('R') => if s.has_queue {
                MessageListAction::Reload
            } else {
                MessageListAction::Nothing
            },
            Key::Char('f') => MessageListAction::PickFetchCount(
                fetch_preset_index_spec(s.fetch_count) as usize,
            ),
            Key::Char('+') | Key::Char('=') => MessageListAction::SetFetchCount(
                fetch_more_spec(s.fetch_count),
            ),
            Key::Char('-') => MessageListAction::SetFetchCount(fetch_less_spec(s.fetch_count)),
            Key::Char('P') => MessageListAction::Publish,
            Key::Char(' ') => MessageListAction::ToggleSelection(
                if s.shown > 0 {
                    cursor_down_spec(s.cursor, s.shown)
                } else {
                    s.cursor
                },
            ),
            Key::Char('a') => MessageListAction::SelectAll,
            Key::Char('C') => if s.targets > 0 {
                MessageListAction::PickTarget(QueueOperation::Copy)
            } else {
                MessageListAction::Nothing
            },
            Key::Char('M') => if s.targets > 0 {
                MessageListAction::PickTarget(QueueOperation::Move)
            } else {
                MessageListAction::Nothing
            },
            Key::Char('d') => if s.selected == 2 {
                MessageListAction::Diff
            } else if s.selected > 0 {
                MessageListAction::DiffNeedsTwo
            } else {
                MessageListAction::Nothing
            },
            Key::Char('D') => if s.targets > 0 {
                MessageListAction::ConfirmDelete
            } else {
                MessageListAction::Nothing
            },
            Key::Char('e') => if s.targets > 0 {
                MessageListAction::Export
            } else {
                MessageListAction::Nothing
            },
            Key::Char('W') => MessageListAction::Dump,
            Key::Char('I') => MessageListAction::Import,
            Key::Char('T') => MessageListAction::SetAutoRefresh(!s.auto_refresh),
            Key::Char('S') => if s.has_scheduled {
                MessageListAction::ShowScheduled
            } else {
                MessageListAction::NoScheduled
            },
            Key::Char('Y') => if !s.connected {
                MessageListAction::Nothing
            } else if s.kafka {
                MessageListAction::Replay
            } else {
                MessageListAction::ReplayNeedsKafka
            },
            Key::Char('B') => if s.has_saved_filters {
                MessageListAction::SavedFilters
            } else {
                MessageListAction::NoSavedFilters
            },
            Key::Char('b') => if !s.ctrl {
                MessageListAction::Nothing
            } else if !s.filter_empty {
                MessageListAction::SaveFilter
            } else {
                MessageListAction::NoFilterToSave
            },
            Key::Char('L') => MessageListAction::Reroute,
            Key::Esc => if s.filter_active {
                MessageListAction::CloseFilter { clear: true }
            } else if s.selected > 0 {
                MessageListAction::ClearSelection
            } else {
                MessageListAction::Leave
            },
            _ => MessageListAction::Nothing,
        }
    }
}

fn message_filter_key(k: Key, s: &MessageListState) -> (r: MessageListAction)
    ensures
        r == message_filter_spec(k, *s),
{
    match k {
        Key::Tab => MessageListAction::ToggleAdvanced,
        Key::Char(c) => MessageListAction::FilterPush(c),
        Key::Backspace => MessageListAction::FilterPop,
        Key::Down => MessageListAction::LeaveFilter(
            if s.shown > 0 {
                cursor_down(s.cursor, s.shown)
            } else {
                s.cursor
            },
        ),
        Key::Up => MessageListAction::LeaveFilter(cursor_up(s.cursor)),
        Key::Enter => match s.cursor {
            Some(c) => if c < s.shown {
                match s.highlighted {
                    Some(m) => MessageListAction::OpenMessage { message: m, close_filter: true },
                    None => MessageListAction::Nothing,
                }
            } else {
                MessageListAction::Nothing
            },
            None => MessageListAction::Nothing,
        },
        Key::Esc => if s.filter_empty {
            MessageListAction::CloseFilter { clear: false }
        } else {
            MessageListAction::LeaveFilter(s.cursor)
        },
        _ => MessageListAction::Nothing,
    }
}

/// The action a key asks for on the message list (no popup open).
pub fn handle_message_list_key(k: Key, s: &MessageListState) -> (r: MessageListAction)
    ensures
        r == message_list_spec(k, *s),
{
    if s.filter_active && s.filter_focused {
        return message_filter_key(k, s);
    }
    if s.filter_active && k == Key::BackTab {
        return MessageListAction::FocusFilter;
    }
    if down_key(k) {
        return MessageListAction::MoveCursor(
            if s.loaded > 0 {
                cursor_down(s.cursor, s.loaded)
            } else {
                s.cursor
            },
        );
    }
    if up_key(k) {
        return MessageListAction::MoveCursor(cursor_up(s.cursor));
    }
    match k {
        Key::Char('q') => MessageListAction::Quit,
        Key::Char('?') => MessageListAction::ShowHelp,
        Key::Enter => match s.cursor {
            Some(c) => if c < s.shown {
                match s.highlighted {
                    Some(m) => MessageListAction::OpenMessage { message: m, close_filter: false },
                    None => MessageListAction::Nothing,
                }
            } else {
                MessageListAction::Nothing
            },
            None => MessageListAction::Nothing,
        },
        Key::Char('/') => MessageListAction::FocusFilter,
        Key::Char('r') | Key::Char('R') => if s.has_queue {
            MessageListAction::Reload
        } else {
            MessageListAction::Nothing
        },
        Key::Char('f') => MessageListAction::PickFetchCount(fetch_preset_index(s.fetch_count)),
        Key::Char('+') | Key::Char('=') => MessageListAction::SetFetchCount(fetch_more(s.fetch_count)),
        Key::Char('-') => MessageListAction::SetFetchCount(fetch_less(s.fetch_count)),
        Key::Char('P') => MessageListAction::Publish,
        Key::Char(' ') => MessageListAction::ToggleSelection(
            if s.shown > 0 {
                cursor_down(s.cursor, s.shown)
            } else {
                s.cursor
            },
        ),
        Key::Char('a') => MessageListAction::SelectAll,
        Key::Char('C') => if s.targets > 0 {
            MessageListAction::PickTarget(QueueOperation::Copy)
        } else {
            MessageListAction::Nothing
        },
        Key::Char('M') => if s.targets > 0 {
            MessageListAction::PickTarget(QueueOperation::Move)
        } else {
            MessageListAction::Nothing
        },
        Key::Char('d') => if s.selected == 2 {
            MessageListAction::Diff
        } else if s.selected > 0 {
            MessageListAction::DiffNeedsTwo
        } else {
            MessageListAction::Nothing
        },
        Key::Char('D') => if s.targets > 0 {
            MessageListAction::ConfirmDelete
        } else {
            MessageListAction::Nothing
        },
        Key::Char('e') => if s.targets > 0 {
            MessageListAction::Export
        } else {
            MessageListAction::Nothing
        },
        Key::Char('W') => MessageListAction::Dump,
        Key::Char('I') => MessageListAction::Import,
        Key::Char('T') => MessageListAction::SetAutoRefresh(!s.auto_refresh),
        Key::Char('S') => if s.has_scheduled {
            MessageListAction::ShowScheduled
        } else {
            MessageListAction::NoScheduled
        },
        Key::Char('Y') => if !s.connected {
            MessageListAction::Nothing
        } else if s.kafka {
            MessageListAction::Replay
        } else {
            MessageListAction::ReplayNeedsKafka
        },
        Key::Char('B') => if s.has_saved_filters {
            MessageListAction::SavedFilters
        } else {
            MessageListAction::NoSavedFilters
        },
        Key::Char('b') => if !s.ctrl {
            MessageListAction::Nothing
        } else if !s.filter_empty {
            MessageListAction::SaveFilter
        } else {
            MessageListAction::NoFilterToSave
        },
        Key::Char('L') => MessageListAction::Reroute,
        Key::Esc => if s.filter_active {
            MessageListAction::CloseFilter { clear: true }
        } else if s.selected > 0 {
            MessageListAction::ClearSelection
        } else {
            MessageListAction::Leave
        },
        _ => MessageListAction::Nothing,
    }
}

// ---------------------------------------------------------------------------
// Before the screens
// ---------------------------------------------------------------------------

/// Where a key goes before any screen sees it.
pub enum KeyRoute {
    /// Ctrl+C: leave the program.
    Quit,
    /// `U` with no popup up and a newer release known: offer the update,
    /// with this status line.
    OfferUpdate(String),
    /// To the handler of this screen.
    Screen(Screen),
}

/// The status line that offers an update.
pub open spec fn update_offer_text(latest: Option<String>) -> Seq<char> {
    "v"@ + match latest {
        Some(v) => v@,
        None => "new"@,
    } + " available"@
}

/// Ctrl+C quits from anywhere; `U` offers a known update when no popup is
/// up; every other key goes to the current screen.
pub fn route_key(k: Key, ctrl: bool, popup_open: bool, checker: &UpdateChecker, screen: Screen) -> (r: KeyRoute)
    ensures
        k == Key::Char('c') && ctrl ==> r is Quit,
        !(k == Key::Char('c') && ctrl) && k == Key::Char('U') && !popup_open && checker.update_available
            ==> (r matches KeyRoute::OfferUpdate(t) && t@ == update_offer_text(checker.latest_version)),
        !(k == Key::Char('c') && ctrl) && !(k == Key::Char('U') && !popup_open && checker.update_available)
            ==> r == KeyRoute::Screen(screen),
{
    if k == Key::Char('c') && ctrl {
        return KeyRoute::Quit;
    }
    if k == Key::Char('U') && !popup_open && checker.update_available {
        let mut t = owned("v");
        match &checker.latest_version {
            Some(v) => push_str(&mut t, v.as_str()),
            None => push_str(&mut t, "new"),
        }
        push_str(&mut t, " available");
        return KeyRoute::OfferUpdate(t);
    }
    KeyRoute::Screen(screen)
}

} // verus!
