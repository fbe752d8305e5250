//! What a key does while a popup is up. Popups with a form, a filter or a
//! stored list have handlers of their own below; the dispatcher answers for
//! the rest and names the popups it hands on.

use vstd::prelude::*;
use crate::comparison::ComparisonTab;
use crate::keys::{
    confirms, is_down, is_up, handle_list_popup_key, handle_reset_input_key, handle_reset_picker_key,
    handle_scroll_keys, is_confirmation, list_popup_spec, next_tab, next_tab_spec, previous_tab,
    previous_tab_spec, reset_input_spec, reset_pick_spec, scrolled, Key, ListAction, ResetInput,
    ResetPick,
};
use crate::model::ConsumerGroupInfo;
use crate::forms::{drop_last_char, publish_edited, publish_field, PublishForm};
use crate::session::{
    cursor_down, cursor_down_spec, cursor_up, cursor_up_spec, fetch_presets, fetch_presets_spec,
    Popup, QueueOperation,
};
use crate::text::{contains, contains_text, lowercase, owned, pop_char, push_char, same_text, to_lower};

verus! {

/// What the dispatcher reads besides the popup and the key.
#[derive(Debug, Clone, Copy, PartialEq, Eq, Structural)]
pub struct PopupContext {
    /// The cursor of the popup's list.
    pub cursor: Option<usize>,
    /// How many profiles and namespaces there are to pick from.
    pub profiles: usize,
    pub namespaces: usize,
    /// Whether a queue is selected (purging and deleting need one).
    pub has_queue: bool,
    /// The scroll position of the popup's text.
    pub scroll: u16,
    /// The tab the comparison view shows.
    pub tab: ComparisonTab,
    /// Whether the running benchmark has finished.
    pub bench_done: bool,
}

/// What a key in a popup asks for.
#[derive(Debug, Clone, Copy, PartialEq, Eq, Structural)]
pub enum PopupStep {
    Nothing,
    /// Close the popup.
    Close,
    /// Put the list cursor here.
    MoveCursor(Option<usize>),
    ConnectProfile(usize),
    SwitchNamespace(usize),
    /// Put the theme cursor here, showing the theme under it when there is
    /// one.
    PreviewTheme { cursor: Option<usize>, theme: Option<usize> },
    /// Use and save this theme, and close.
    ApplyTheme(usize),
    SetFetchCount(u32),
    SetBackendType(usize),
    /// Back to the publish form.
    BackToPublish,
    /// Schedule the message with this delay preset.
    Schedule(usize),
    Purge,
    DeleteQueue,
    DeleteSelected,
    ResetOffsets,
    /// Back to the consumer groups.
    BackToGroups,
    Reroute,
    /// The popup's text scrolls to here.
    Scroll(u16),
    /// The comparison view shows this tab, from its top.
    ShowTab(ComparisonTab),
    /// Stop the operation under way.
    CancelOperation,
    /// The benchmark popup: stop the run (`Esc`), and close once it is done.
    Benchmark { cancel: bool, close: bool },
    Strategy(ResetPick),
    Offset(ResetInput),
    /// The popup's own handler takes the key.
    Delegate,
}

/// The rows of the theme picker.
pub open spec fn theme_count() -> usize {
    5
}

/// The rows of the backend type picker.
pub open spec fn backend_count() -> usize {
    3
}

/// The rows of the delay picker.
pub open spec fn delay_count() -> usize {
    6
}

/// What picking a row of a list popup means.
#[derive(Debug, Clone, Copy, PartialEq, Eq, Structural)]
pub enum PickMeaning {
    Profile,
    Namespace,
    FetchCount,
    Backend,
    Delay,
}

/// The answer to picking row `i`.
pub open spec fn picked(m: PickMeaning, i: usize) -> PopupStep {
    match m {
        PickMeaning::Profile => PopupStep::ConnectProfile(i),
        PickMeaning::Namespace => PopupStep::SwitchNamespace(i),
        PickMeaning::FetchCount => PopupStep::SetFetchCount(fetch_presets_spec()[i as int]),
        PickMeaning::Backend => PopupStep::SetBackendType(i),
        PickMeaning::Delay => PopupStep::Schedule(i),
    }
}

/// A list popup's answer, where picking a row means `m` and closing means
/// `close`.
pub open spec fn list_step(a: ListAction, m: PickMeaning, close: PopupStep) -> PopupStep {
    match a {
        ListAction::Nothing => PopupStep::Nothing,
        ListAction::Close => close,
        ListAction::MoveCursor(c) => PopupStep::MoveCursor(c),
        ListAction::Pick(i) => picked(m, i),
    }
}

/// The theme under a cursor, when it is on a theme.
pub open spec fn theme_under(m: Option<usize>) -> Option<usize> {
    match m {
        Some(s) => if s < theme_count() {
            Some(s)
        } else {
            None
        },
        None => None,
    }
}

/// What a key does in popup `p` (with the offset text `reset_text` typed
/// so far).
pub open spec fn popup_step_spec(p: Popup, k: Key, reset_text: Seq<char>, c: PopupContext) -> PopupStep {
    match p {
        Popup::Help => if k == Key::Esc || k == Key::Char('?') || k == Key::Enter {
            PopupStep::Close
        } else {
            PopupStep::Nothing
        },
        Popup::ProfileSwitch => list_step(
            list_popup_spec(k, c.cursor, c.profiles, 0),
            PickMeaning::Profile,
            PopupStep::Close,
        ),
        Popup::NamespacePicker => list_step(
            list_popup_spec(k, c.cursor, c.namespaces, 0),
            PickMeaning::Namespace,
            PopupStep::Close,
        ),
        Popup::ThemePicker => match list_popup_spec(k, c.cursor, theme_count(), 0) {
            ListAction::Close => PopupStep::Close,
            ListAction::MoveCursor(m) => PopupStep::PreviewTheme { cursor: m, theme: theme_under(m) },
            _ => if k == Key::Enter {
                match theme_under(c.cursor) {
                    Some(t) => PopupStep::ApplyTheme(t),
                    None => PopupStep::Nothing,
                }
            } else {
                PopupStep::Nothing
            },
        },
        Popup::FetchCount => list_step(
            list_popup_spec(k, c.cursor, 6, 2),
            PickMeaning::FetchCount,
            PopupStep::Close,
        ),
        Popup::BackendTypePicker => list_step(
            list_popup_spec(k, c.cursor, backend_count(), 0),
            PickMeaning::Backend,
            PopupStep::Close,
        ),
        Popup::ScheduleDelay => list_step(
            list_popup_spec(k, c.cursor, delay_count(), 0),
            PickMeaning::Delay,
            PopupStep::BackToPublish,
        ),
        Popup::ConfirmPurge => if !confirms(k) {
            PopupStep::Close
        } else if c.has_queue {
            PopupStep::Purge
        } else {
            PopupStep::Nothing
        },
        Popup::ConfirmDelete => if !confirms(k) {
            PopupStep::Close
        } else if c.has_queue {
            PopupStep::DeleteQueue
        } else {
            PopupStep::Nothing
        },
        Popup::ConfirmDeleteMessages => if confirms(k) {
            PopupStep::DeleteSelected
        } else {
            PopupStep::Close
        },
        Popup::ConfirmResetOffset => if confirms(k) {
            PopupStep::ResetOffsets
        } else {
            PopupStep::BackToGroups
        },
        Popup::ConfirmReroute { .. } => if confirms(k) {
            PopupStep::Reroute
        } else {
            PopupStep::Close
        },
        Popup::ExportMessages => PopupStep::Close,
        Popup::QueueInfo => if k == Key::Esc || k == Key::Char('q') || k == Key::Char('i') {
            PopupStep::Close
        } else {
            PopupStep::Scroll(scrolled(k, c.scroll))
        },
        Popup::OperationProgress => if k == Key::Esc {
            PopupStep::CancelOperation
        } else {
            PopupStep::Nothing
        },
        Popup::MessageDiff => if k == Key::Esc {
            PopupStep::Close
        } else {
            PopupStep::Scroll(scrolled(k, c.scroll))
        },
        Popup::CompareResults => if k == Key::Esc {
            PopupStep::Close
        } else if k == Key::Tab {
            PopupStep::ShowTab(next_tab_spec(c.tab))
        } else if k == Key::BackTab {
            PopupStep::ShowTab(previous_tab_spec(c.tab))
        } else {
            PopupStep::Scroll(scrolled(k, c.scroll))
        },
        Popup::TopologyView => if k == Key::Esc || k == Key::Char('X') {
            PopupStep::Close
        } else {
            PopupStep::Scroll(scrolled(k, c.scroll))
        },
        Popup::BenchmarkRunning => PopupStep::Benchmark { cancel: k == Key::Esc, close: c.bench_done },
        Popup::ResetOffsetPicker => PopupStep::Strategy(reset_pick_spec(k, c.cursor)),
        Popup::ResetOffsetInput => PopupStep::Offset(reset_input_spec(k, reset_text, c.cursor)),
        Popup::PublishMessage | Popup::EditMessage | Popup::QueuePicker(_)
        | Popup::MessageQueuePicker(_) | Popup::CompareQueuePicker | Popup::ConsumerGroups
        | Popup::ScheduledMessages | Popup::SavedFilters | Popup::SaveFilter
        | Popup::TemplatePicker | Popup::SaveTemplate | Popup::ReplayConfig
        | Popup::BenchmarkConfig | Popup::ImportFile => PopupStep::Delegate,
        Popup::Closed | Popup::RetainedMessages | Popup::Permissions => PopupStep::Nothing,
    }
}

fn from_list(a: ListAction, m: PickMeaning, close: PopupStep) -> (r: PopupStep)
    requires
        a matches ListAction::Pick(i) ==> (m == PickMeaning::FetchCount ==> i < 6),
    ensures
        r == list_step(a, m, close),
{
    match a {
        ListAction::Nothing => PopupStep::Nothing,
        ListAction::Close => close,
        ListAction::MoveCursor(c) => PopupStep::MoveCursor(c),
        ListAction::Pick(i) => match m {
            PickMeaning::Profile => PopupStep::ConnectProfile(i),
            PickMeaning::Namespace => PopupStep::SwitchNamespace(i),
            PickMeaning::FetchCount => {
                let presets = fetch_presets();
                PopupStep::SetFetchCount(presets[i])
            },
            PickMeaning::Backend => PopupStep::SetBackendType(i),
            PickMeaning::Delay => PopupStep::Schedule(i),
        },
    }
}

fn theme_at(m: Option<usize>) -> (r: Option<usize>)
    ensures
        r == theme_under(m),
{
    match m {
        Some(s) => if s < 5 {
            Some(s)
        } else {
            None
        },
        None => None,
    }
}

/// What a key does in popup `p`; `reset_text` is the offset typed so far
/// in the offset input.
pub fn handle_popup_key(p: &Popup, k: Key, reset_text: &str, c: &PopupContext) -> (r: PopupStep)
    ensures
        r == popup_step_spec(*p, k, reset_text@, *c),
{
    match p {
        Popup::Help => if k == Key::Esc || k == Key::Char('?') || k == Key::Enter {
            PopupStep::Close
        } else {
            PopupStep::Nothing
        },
        Popup::ProfileSwitch => from_list(
            handle_list_popup_key(k, c.cursor, c.profiles, 0),
            PickMeaning::Profile,
            PopupStep::Close,
        ),
        Popup::NamespacePicker => from_list(
            handle_list_popup_key(k, c.cursor, c.namespaces, 0),
            PickMeaning::Namespace,
            PopupStep::Close,
        ),
        Popup::ThemePicker => match handle_list_popup_key(k, c.cursor, 5, 0) {
            ListAction::Close => PopupStep::Close,
            ListAction::MoveCursor(m) => PopupStep::PreviewTheme { cursor: m, theme: theme_at(m) },
            _ => if k == Key::Enter {
                match theme_at(c.cursor) {
                    Some(t) => PopupStep::ApplyTheme(t),
                    None => PopupStep::Nothing,
                }
            } else {
                PopupStep::Nothing
            },
        },
        Popup::FetchCount => from_list(
            handle_list_popup_key(k, c.cursor, 6, 2),
            PickMeaning::FetchCount,
            PopupStep::Close,
        ),
        Popup::BackendTypePicker => from_list(
            handle_list_popup_key(k, c.cursor, 3, 0),
            PickMeaning::Backend,
            PopupStep::Close,
        ),
        Popup::ScheduleDelay => from_list(
            handle_list_popup_key(k, c.cursor, 6, 0),
            PickMeaning::Delay,
            PopupStep::BackToPublish,
        ),
        Popup::ConfirmPurge => if !is_confirmation(k) {
            PopupStep::Close
        } else if c.has_queue {
            PopupStep::Purge
        } else {
            PopupStep::Nothing
        },
        Popup::ConfirmDelete => if !is_confirmation(k) {
            PopupStep::Close
        } else if c.has_queue {
            PopupStep::DeleteQueue
        } else {
            PopupStep::Nothing
        },
        Popup::ConfirmDeleteMessages => if is_confirmation(k) {
            PopupStep::DeleteSelected
        } else {
            PopupStep::Close
        },
        Popup::ConfirmResetOffset => if is_confirmation(k) {
            PopupStep::ResetOffsets
        } else {
            PopupStep::BackToGroups
        },
        Popup::ConfirmReroute { .. } => if is_confirmation(k) {
            PopupStep::Reroute
        } else {
            PopupStep::Close
        },
        Popup::ExportMessages => PopupStep::Close,
        Popup::QueueInfo => if k == Key::Esc || k == Key::Char('q') || k == Key::Char('i') {
            PopupStep::Close
        } else {
            PopupStep::Scroll(handle_scroll_keys(k, c.scroll))
        },
        Popup::OperationProgress => if k == Key::Esc {
            PopupStep::CancelOperation
        } else {
            PopupStep::Nothing
        },
        Popup::MessageDiff => if k == Key::Esc {
            PopupStep::Close
        } else {
            PopupStep::Scroll(handle_scroll_keys(k, c.scroll))
        },
        Popup::CompareResults => if k == Key::Esc {
            PopupStep::Close
        } else if k == Key::Tab {
            PopupStep::ShowTab(next_tab(c.tab))
        } else if k == Key::BackTab {
            PopupStep::ShowTab(previous_tab(c.tab))
        } else {
            PopupStep::Scroll(handle_scroll_keys(k, c.scroll))
        },
        Popup::TopologyView => if k == Key::Esc || k == Key::Char('X') {
            PopupStep::Close
        } else {
            PopupStep::Scroll(handle_scroll_keys(k, c.scroll))
        },
        Popup::BenchmarkRunning => PopupStep::Benchmark { cancel: k == Key::Esc, close: c.bench_done },
        Popup::ResetOffsetPicker => PopupStep::Strategy(handle_reset_picker_key(k, c.cursor)),
        Popup::ResetOffsetInput => PopupStep::Offset(handle_reset_input_key(k, reset_text, c.cursor)),
        Popup::PublishMessage | Popup::EditMessage | Popup::QueuePicker(_)
        | Popup::MessageQueuePicker(_) | Popup::CompareQueuePicker | Popup::ConsumerGroups
        | Popup::ScheduledMessages | Popup::SavedFilters | Popup::SaveFilter
        | Popup::TemplatePicker | Popup::SaveTemplate | Popup::ReplayConfig
        | Popup::BenchmarkConfig | Popup::ImportFile => PopupStep::Delegate,
        Popup::Closed | Popup::RetainedMessages | Popup::Permissions => PopupStep::Nothing,
    }
}

// ---------------------------------------------------------------------------
// The publish form
// ---------------------------------------------------------------------------

/// A publish form as the handler sees it: routing key, content type,
/// body, focused field, error line.
pub open spec fn publish_model(f: PublishForm) -> (Seq<char>, Seq<char>, Seq<char>, usize, Seq<char>) {
    (f.routing_key@, f.content_type@, f.body@, f.focused_field, f.error@)
}

/// The text of the focused field.
pub open spec fn focused_text(m: (Seq<char>, Seq<char>, Seq<char>, usize, Seq<char>)) -> Seq<char> {
    if m.3 == 0 {
        m.0
    } else if m.3 == 1 {
        m.1
    } else if m.3 == 2 {
        m.2
    } else {
        seq![]
    }
}

/// The form with the focused field's text replaced by `t`.
pub open spec fn with_focused(m: (Seq<char>, Seq<char>, Seq<char>, usize, Seq<char>), t: Seq<char>) -> (
    Seq<char>,
    Seq<char>,
    Seq<char>,
    usize,
    Seq<char>,
) {
    if m.3 == 0 {
        (t, m.1, m.2, m.3, m.4)
    } else if m.3 == 1 {
        (m.0, t, m.2, m.3, m.4)
    } else if m.3 == 2 {
        (m.0, m.1, t, m.3, m.4)
    } else {
        m
    }
}

pub open spec fn with_error(m: (Seq<char>, Seq<char>, Seq<char>, usize, Seq<char>), e: Seq<char>) -> (
    Seq<char>,
    Seq<char>,
    Seq<char>,
    usize,
    Seq<char>,
) {
    (m.0, m.1, m.2, m.3, e)
}

pub open spec fn with_focus(m: (Seq<char>, Seq<char>, Seq<char>, usize, Seq<char>), f: usize) -> (
    Seq<char>,
    Seq<char>,
    Seq<char>,
    usize,
    Seq<char>,
) {
    (m.0, m.1, m.2, f, m.4)
}

/// What a key in the publish form asks for.
#[derive(Debug, Clone, Copy, PartialEq, Eq, Structural)]
pub enum PublishKey {
    Nothing,
    Close,
    Publish,
    /// Pick a delay for scheduling the message.
    PickDelay,
    /// Pick a saved template.
    PickTemplate,
    /// Ask for a name to save the message as a template.
    NameTemplate,
}

/// What a key does in the publish form (`ctrl` says whether Ctrl is held,
/// `has_templates` whether any template is saved).
pub open spec fn publish_key_spec(
    m: (Seq<char>, Seq<char>, Seq<char>, usize, Seq<char>),
    k: Key,
    ctrl: bool,
    has_templates: bool,
) -> ((Seq<char>, Seq<char>, Seq<char>, usize, Seq<char>), PublishKey) {
    match k {
        Key::Esc => (with_error(m, seq![]), PublishKey::Close),
        Key::Tab | Key::Down => (with_focus(m, ((m.3 + 1) % 3) as usize), PublishKey::Nothing),
        Key::BackTab | Key::Up => (with_focus(m, ((m.3 + 2) % 3) as usize), PublishKey::Nothing),
        Key::Enter => if m.3 == 2 {
            (with_focused(m, m.2.push('\n')), PublishKey::Nothing)
        } else if m.2.len() == 0 {
            (with_error(m, "Body is required"@), PublishKey::Nothing)
        } else {
            (with_error(m, seq![]), PublishKey::Publish)
        },
        Key::Backspace => (with_focused(m, drop_last_char(focused_text(m))), PublishKey::Nothing),
        Key::Char(c) => if ctrl && c == 's' {
            if m.2.len() == 0 {
                (with_error(m, "Body is required"@), PublishKey::Nothing)
            } else {
                (with_error(m, seq![]), PublishKey::PickDelay)
            }
        } else if ctrl && c == 't' {
            if has_templates {
                (m, PublishKey::PickTemplate)
            } else {
                (with_error(m, "No templates saved yet"@), PublishKey::Nothing)
            }
        } else if ctrl && c == 'w' {
            if m.2.len() > 0 {
                (m, PublishKey::NameTemplate)
            } else {
                (m, PublishKey::Nothing)
            }
        } else {
            (with_focused(m, focused_text(m).push(c)), PublishKey::Nothing)
        },
        _ => (m, PublishKey::Nothing),
    }
}

/// `Tab` then `Shift+Tab` (or the arrows down then up) gives back the
/// form, and three `Tab`s come back to the same field.
pub proof fn lemma_publish_focus_cycle(
    m: (Seq<char>, Seq<char>, Seq<char>, usize, Seq<char>),
    ctrl: bool,
    has_templates: bool,
)
    requires
        m.3 < 3,
    ensures
        publish_key_spec(publish_key_spec(m, Key::Tab, ctrl, has_templates).0, Key::BackTab, ctrl, has_templates).0
            == m,
        publish_key_spec(publish_key_spec(m, Key::Down, ctrl, has_templates).0, Key::Up, ctrl, has_templates).0
            == m,
        publish_key_spec(
            publish_key_spec(publish_key_spec(m, Key::Tab, ctrl, has_templates).0, Key::Tab, ctrl, has_templates).0,
            Key::Tab,
            ctrl,
            has_templates,
        ).0 == m,
{
}

/// Typing a character into a text input and deleting it gives back the
/// text.
pub proof fn lemma_text_input_push_pop(text: Seq<char>, c: char, clear_on_cancel: bool, allow_empty: bool)
    ensures
        text_input_spec(
            text_input_spec(text, Key::Char(c), clear_on_cancel, allow_empty).0,
            Key::Backspace,
            clear_on_cancel,
            allow_empty,
        ).0 == text,
{
    assert(text.push(c).drop_last() =~= text);
}

proof fn lemma_edited(f: PublishForm, g: PublishForm, t: Seq<char>)
    requires
        f.focused_field < 3,
        publish_edited(f, g, t),
    ensures
        publish_model(g) == with_focused(publish_model(f), t),
        focused_text(publish_model(f)) == publish_field(f, f.focused_field),
{
    assert(publish_field(g, 0) == if 0 == f.focused_field { t } else { publish_field(f, 0) });
    assert(publish_field(g, 1) == if 1 == f.focused_field { t } else { publish_field(f, 1) });
    assert(publish_field(g, 2) == if 2 == f.focused_field { t } else { publish_field(f, 2) });
}

/// What a key does in the publish (or edit) form: the form changes in
/// place, and what the caller does next comes back.
pub fn handle_publish_key(form: &mut PublishForm, k: Key, ctrl: bool, has_templates: bool) -> (r:
    PublishKey)
    requires
        old(form).focused_field < 3,
    ensures
        (publish_model(*final(form)), r) == publish_key_spec(
            publish_model(*old(form)),
            k,
            ctrl,
            has_templates,
        ),
        final(form).focused_field < 3,
{
    let ghost before = *form;
    match k {
        Key::Esc => {
            form.error = String::new();
            PublishKey::Close
        },
        Key::Tab | Key::Down => {
            form.focused_field = (form.focused_field + 1) % 3;
            PublishKey::Nothing
        },
        Key::BackTab | Key::Up => {
            form.focused_field = (form.focused_field + 2) % 3;
            PublishKey::Nothing
        },
        Key::Enter => {
            if form.focused_field == 2 {
                form.newline();
                proof {
                    lemma_edited(before, *form, before.body@.push('\n'));
                }
                PublishKey::Nothing
            } else if form.body.as_str().is_empty() {
                form.error = owned("Body is required");
                PublishKey::Nothing
            } else {
                form.error = String::new();
                PublishKey::Publish
            }
        },
        Key::Backspace => {
            form.pop_char();
            proof {
                lemma_edited(before, *form, drop_last_char(publish_field(before, before.focused_field)));
            }
            PublishKey::Nothing
        },
        Key::Char(c) => {
            if ctrl && c == 's' {
                if form.body.as_str().is_empty() {
                    form.error = owned("Body is required");
                    PublishKey::Nothing
                } else {
                    form.error = String::new();
                    PublishKey::PickDelay
                }
            } else if ctrl && c == 't' {
                if has_templates {
                    PublishKey::PickTemplate
                } else {
                    form.error = owned("No templates saved yet");
                    PublishKey::Nothing
                }
            } else if ctrl && c == 'w' {
                if !form.body.as_str().is_empty() {
                    PublishKey::NameTemplate
                } else {
                    PublishKey::Nothing
                }
            } else {
                form.push_char(c);
                proof {
                    lemma_edited(before, *form, publish_field(before, before.focused_field).push(c));
                }
                PublishKey::Nothing
            }
        },
        _ => PublishKey::Nothing,
    }
}

// ---------------------------------------------------------------------------
// The queue picker
// ---------------------------------------------------------------------------

/// Whether a queue named `name` is offered: it is not the excluded one,
/// and it matches the filter (ignoring case) when there is one.
pub open spec fn offered(name: Seq<char>, filter: Seq<char>, exclude: Option<Seq<char>>) -> bool {
    exclude != Some(name) && (filter.len() == 0 || contains(lowercase(name), lowercase(filter)))
}

/// The positions of the queues offered, in order.
pub open spec fn picker_rows(names: Seq<String>, filter: Seq<char>, exclude: Option<Seq<char>>) -> Seq<usize>
    decreases names.len(),
{
    if names.len() == 0 {
        seq![]
    } else {
        let r = picker_rows(names.drop_last(), filter, exclude);
        if offered(names.last()@, filter, exclude) {
            r.push((names.len() - 1) as usize)
        } else {
            r
        }
    }
}

/// The picker offers queues of the list only, in their order, each once,
/// and only those that are offered: never the excluded queue (the first
/// queue of a comparison), and only those matching the filter.
pub proof fn lemma_picker_rows(names: Seq<String>, filter: Seq<char>, exclude: Option<Seq<char>>)
    requires
        names.len() <= usize::MAX,
    ensures
        picker_rows(names, filter, exclude).len() <= names.len(),
        forall|j: int|
            0 <= j < picker_rows(names, filter, exclude).len() ==> {
                let i = #[trigger] picker_rows(names, filter, exclude)[j];
                &&& i < names.len()
                &&& offered(names[i as int]@, filter, exclude)
            },
        forall|a: int, b: int|
            0 <= a < b < picker_rows(names, filter, exclude).len() ==> picker_rows(
                names,
                filter,
                exclude,
            )[a] < picker_rows(names, filter, exclude)[b],
    decreases names.len(),
{
    if names.len() > 0 {
        let init = names.drop_last();
        lemma_picker_rows(init, filter, exclude);
        let r = picker_rows(init, filter, exclude);
        let full = picker_rows(names, filter, exclude);
        let n = names.len();
        assert forall|j: int| 0 <= j < r.len() implies names[r[j] as int] == init[r[j] as int] by {}
        if offered(names.last()@, filter, exclude) {
            assert(((n - 1) as usize) as int == n - 1);
            assert(full == r.push((n - 1) as usize));
            assert forall|j: int| 0 <= j < full.len() implies {
                let i = #[trigger] full[j];
                &&& i < n
                &&& offered(names[i as int]@, filter, exclude)
            } by {
                if j < r.len() {
                    assert(full[j] == r[j]);
                }
            }
            assert forall|a: int, b: int| 0 <= a < b < full.len() implies full[a] < full[b] by {
                assert(full[a] == r[a]);
                if b < r.len() {
                    assert(full[b] == r[b]);
                }
            }
        } else {
            assert(full == r);
        }
    }
}

/// The positions of the queues the picker offers.
pub fn picker_rows_of(names: &Vec<String>, filter: &str, exclude: Option<&str>) -> (r: Vec<usize>)
    ensures
        r@ == picker_rows(
            names@,
            filter@,
            match exclude {
                Some(x) => Some(x@),
                None => None,
            },
        ),
{
    let ghost ex = match exclude {
        Some(x) => Some(x@),
        None => None,
    };
    let lf = to_lower(filter);
    let mut r: Vec<usize> = Vec::new();
    let mut i: usize = 0;
    assert(names@.take(0) =~= Seq::<String>::empty());
    while i < names.len()
        invariant
            i <= names@.len(),
            lf@ == lowercase(filter@),
            ex == match exclude {
                Some(x) => Some(x@),
                None => None::<Seq<char>>,
            },
            r@ == picker_rows(names@.take(i as int), filter@, ex),
        decreases names.len() - i,
    {
        assert(names@.take(i + 1).drop_last() =~= names@.take(i as int));
        assert(names@.take(i + 1).last() == names@[i as int]);
        let name = names[i].as_str();
        let excluded = match exclude {
            Some(x) => same_text(x, name),
            None => false,
        };
        let matches_filter = if filter.is_empty() {
            true
        } else {
            let ln = to_lower(name);
            contains_text(ln.as_str(), lf.as_str())
        };
        assert(excluded == (ex == Some(names@[i as int]@)));
        assert((!excluded && matches_filter) == offered(names@[i as int]@, filter@, ex));
        if !excluded && matches_filter {
            r.push(i);
        }
        i = i + 1;
    }
    assert(names@.take(names@.len() as int) =~= names@);
    r
}

/// What the picker is picking a queue for.
#[derive(Debug, Clone, Copy, PartialEq, Eq, Structural)]
pub enum PickerKind {
    /// Copy or move all messages of the selected queue.
    Queues(QueueOperation),
    /// Copy or move the selected messages.
    Messages(QueueOperation),
    /// Compare with the first queue.
    Compare,
}

/// The queue picker: its filter, whether the filter is being typed, and
/// the cursor among the queues offered.
pub struct QueuePicker {
    pub filter: String,
    pub filter_active: bool,
    pub cursor: Option<usize>,
}

/// What picking a queue leads to.
pub enum PickerAction {
    Nothing,
    Close,
    /// Copy or move all messages from `source` to `dest`.
    Transfer { source: String, dest: String, op: QueueOperation },
    /// The destination is the source queue itself.
    SameQueue,
    /// Copy or move the selected messages to `dest`.
    SendSelected { dest: String, op: QueueOperation },
    /// Compare `first` with `second`.
    Compare { first: String, second: String },
}

pub enum PickerEffect {
    Nothing,
    Close,
    Transfer(Seq<char>, Seq<char>, QueueOperation),
    SameQueue,
    SendSelected(Seq<char>, QueueOperation),
    Compare(Seq<char>, Seq<char>),
}

impl View for PickerAction {
    type V = PickerEffect;

    open spec fn view(&self) -> PickerEffect {
        match self {
            PickerAction::Nothing => PickerEffect::Nothing,
            PickerAction::Close => PickerEffect::Close,
            PickerAction::Transfer { source, dest, op } => PickerEffect::Transfer(source@, dest@, *op),
            PickerAction::SameQueue => PickerEffect::SameQueue,
            PickerAction::SendSelected { dest, op } => PickerEffect::SendSelected(dest@, *op),
            PickerAction::Compare { first, second } => PickerEffect::Compare(first@, second@),
        }
    }
}

impl View for QueuePicker {
    type V = (Seq<char>, bool, Option<usize>);

    open spec fn view(&self) -> (Seq<char>, bool, Option<usize>) {
        (self.filter@, self.filter_active, self.cursor)
    }
}

/// What a key does in the queue picker, given the queue names, the name
/// of the selected queue (for transfers) and of the first queue (for
/// comparisons, which leave it out of the offer).
pub open spec fn picker_key_spec(
    s: (Seq<char>, bool, Option<usize>),
    kind: PickerKind,
    k: Key,
    names: Seq<String>,
    source: Option<Seq<char>>,
    first: Seq<char>,
) -> ((Seq<char>, bool, Option<usize>), PickerEffect) {
    let exclude = if kind == PickerKind::Compare {
        Some(first)
    } else {
        None
    };
    let rows = picker_rows(names, s.0, exclude);
    let cleared = (Seq::<char>::empty(), s.1, s.2);
    if s.1 {
        match k {
            Key::Char(c) => ((s.0.push(c), true, Some(0)), PickerEffect::Nothing),
            Key::Backspace => ((drop_last_char(s.0), true, Some(0)), PickerEffect::Nothing),
            Key::Esc => ((Seq::<char>::empty(), false, s.2), PickerEffect::Nothing),
            Key::Enter => ((s.0, false, s.2), PickerEffect::Nothing),
            _ => (s, PickerEffect::Nothing),
        }
    } else if k == Key::Char('/') {
        ((s.0, true, s.2), PickerEffect::Nothing)
    } else {
        match list_popup_spec(k, s.2, rows.len() as usize, 0) {
            ListAction::Close => (cleared, PickerEffect::Close),
            ListAction::MoveCursor(m) => ((s.0, s.1, m), PickerEffect::Nothing),
            ListAction::Pick(i) => {
                let dest = names[rows[i as int] as int]@;
                match kind {
                    PickerKind::Queues(op) => {
                        let src = match source {
                            Some(x) => x,
                            None => Seq::<char>::empty(),
                        };
                        if dest == src {
                            (s, PickerEffect::SameQueue)
                        } else {
                            (cleared, PickerEffect::Transfer(src, dest, op))
                        }
                    },
                    PickerKind::Messages(op) => (cleared, PickerEffect::SendSelected(dest, op)),
                    PickerKind::Compare => (cleared, PickerEffect::Compare(first, dest)),
                }
            },
            ListAction::Nothing => (s, PickerEffect::Nothing),
        }
    }
}

/// What a key does in the queue picker: the picker changes in place, and
/// what to do with the picked queue comes back.
pub fn handle_queue_picker_key(
    p: &mut QueuePicker,
    kind: PickerKind,
    k: Key,
    names: &Vec<String>,
    source: Option<&str>,
    first: &str,
) -> (r: PickerAction)
    ensures
        (final(p)@, r@) == picker_key_spec(
            old(p)@,
            kind,
            k,
            names@,
            match source {
                Some(x) => Some(x@),
                None => None,
            },
            first@,
        ),
{
    let exclude = if kind == PickerKind::Compare {
        Some(first)
    } else {
        None
    };
    let rows = picker_rows_of(names, p.filter.as_str(), exclude);
    let n = names.len();
    assert(names@.len() == n);
    proof {
        lemma_picker_rows(names@, old(p)@.0, match exclude {
            Some(x) => Some(x@),
            None => None,
        });
    }
    if p.filter_active {
        match k {
            Key::Char(c) => {
                push_char(&mut p.filter, c);
                p.cursor = Some(0);
            },
            Key::Backspace => {
                let _ = pop_char(&mut p.filter);
                p.cursor = Some(0);
            },
            Key::Esc => {
                p.filter = String::new();
                p.filter_active = false;
            },
            Key::Enter => {
                p.filter_active = false;
            },
            _ => {},
        }
        return PickerAction::Nothing;
    }
    if k == Key::Char('/') {
        p.filter_active = true;
        return PickerAction::Nothing;
    }
    match handle_list_popup_key(k, p.cursor, rows.len(), 0) {
        ListAction::Close => {
            p.filter = String::new();
            PickerAction::Close
        },
        ListAction::MoveCursor(m) => {
            p.cursor = m;
            PickerAction::Nothing
        },
        ListAction::Pick(i) => {
            let dest = names[rows[i]].clone();
            match kind {
                PickerKind::Queues(op) => {
                    let src = match source {
                        Some(x) => owned(x),
                        None => String::new(),
                    };
                    if same_text(dest.as_str(), src.as_str()) {
                        PickerAction::SameQueue
                    } else {
                        p.filter = String::new();
                        PickerAction::Transfer { source: src, dest, op }
                    }
                },
                PickerKind::Messages(op) => {
                    p.filter = String::new();
                    PickerAction::SendSelected { dest, op }
                },
                PickerKind::Compare => {
                    p.filter = String::new();
                    PickerAction::Compare { first: owned(first), second: dest }
                },
            }
        },
        ListAction::Nothing => PickerAction::Nothing,
    }
}

// ---------------------------------------------------------------------------
// Consumer groups
// ---------------------------------------------------------------------------

/// What a key in the consumer groups popup asks for.
#[derive(Debug, Clone, Copy, PartialEq, Eq, Structural)]
pub enum GroupsStep {
    Nothing,
    /// The group cursor moves here.
    Select(usize),
    /// Offsets can only be reset on Kafka.
    NotKafka,
    /// The group has active members (it is `Stable`).
    GroupActive,
    /// Pick how to reset the offsets of this group.
    PickStrategy(usize),
    /// Close, forgetting the cursor.
    Close,
}

/// What a key does among `groups`, with the cursor at `selected`; `kafka`
/// is `None` without a connection, else whether the broker is Kafka.
pub open spec fn groups_key_spec(
    k: Key,
    selected: Option<usize>,
    groups: Seq<ConsumerGroupInfo>,
    kafka: Option<bool>,
) -> GroupsStep {
    let count = groups.len();
    let sel: int = match selected {
        Some(s) => s as int,
        None => 0,
    };
    if is_down(k) {
        if count > 0 && sel + 1 < count {
            GroupsStep::Select((sel + 1) as usize)
        } else {
            GroupsStep::Nothing
        }
    } else if is_up(k) {
        if count > 0 && sel > 0 {
            GroupsStep::Select((sel - 1) as usize)
        } else {
            GroupsStep::Nothing
        }
    } else if k == Key::PageDown {
        if count > 0 {
            GroupsStep::Select(
                if sel + 5 < count - 1 {
                    (sel + 5) as usize
                } else {
                    (count - 1) as usize
                },
            )
        } else {
            GroupsStep::Nothing
        }
    } else if k == Key::PageUp {
        if count > 0 {
            GroupsStep::Select(
                if sel >= 5 {
                    (sel - 5) as usize
                } else {
                    0
                },
            )
        } else {
            GroupsStep::Nothing
        }
    } else if k == Key::Char('R') {
        match kafka {
            None => GroupsStep::Nothing,
            Some(false) => GroupsStep::NotKafka,
            Some(true) => match selected {
                Some(s) => if s < count {
                    if groups[s as int].state@ == "Stable"@ {
                        GroupsStep::GroupActive
                    } else {
                        GroupsStep::PickStrategy(s)
                    }
                } else {
                    GroupsStep::Nothing
                },
                None => GroupsStep::Nothing,
            },
        }
    } else if k == Key::Esc || k == Key::Char('G') {
        GroupsStep::Close
    } else {
        GroupsStep::Nothing
    }
}

pub fn handle_consumer_groups_key(
    k: Key,
    selected: Option<usize>,
    groups: &Vec<ConsumerGroupInfo>,
    kafka: Option<bool>,
) -> (r: GroupsStep)
    ensures
        r == groups_key_spec(k, selected, groups@, kafka),
{
    let count = groups.len();
    let sel: usize = match selected {
        Some(s) => s,
        None => 0,
    };
    if k == Key::Char('j') || k == Key::Down {
        if count > 0 && sel < count - 1 {
            GroupsStep::Select(sel + 1)
        } else {
            GroupsStep::Nothing
        }
    } else if k == Key::Char('k') || k == Key::Up {
        if count > 0 && sel > 0 {
            GroupsStep::Select(sel - 1)
        } else {
            GroupsStep::Nothing
        }
    } else if k == Key::PageDown {
        if count > 0 {
            GroupsStep::Select(
                if sel < count - 1 && count - 1 - sel > 5 {
                    sel + 5
                } else {
                    count - 1
                },
            )
        } else {
            GroupsStep::Nothing
        }
    } else if k == Key::PageUp {
        if count > 0 {
            GroupsStep::Select(
                if sel >= 5 {
                    sel - 5
                } else {
                    0
                },
            )
        } else {
            GroupsStep::Nothing
        }
    } else if k == Key::Char('R') {
        match kafka {
            None => GroupsStep::Nothing,
            Some(false) => GroupsStep::NotKafka,
            Some(true) => match selected {
                Some(s) => if s < count {
                    if same_text(groups[s].state.as_str(), "Stable") {
                        GroupsStep::GroupActive
                    } else {
                        GroupsStep::PickStrategy(s)
                    }
                } else {
                    GroupsStep::Nothing
                },
                None => GroupsStep::Nothing,
            },
        }
    } else if k == Key::Esc || k == Key::Char('G') {
        GroupsStep::Close
    } else {
        GroupsStep::Nothing
    }
}

// ---------------------------------------------------------------------------
// Stored lists: saved filters, templates, scheduled messages
// ---------------------------------------------------------------------------

/// What a key in a list of stored things asks for.
#[derive(Debug, Clone, Copy, PartialEq, Eq, Structural)]
pub enum StoredStep {
    Nothing,
    Close,
    MoveCursor(Option<usize>),
    /// Use this entry (load the filter or the template).
    Use(usize),
    /// Remove this entry.
    Remove(usize),
}

/// What a key does in a list of `count` stored entries with the cursor at
/// `cursor`; `Enter` uses the entry only where entries can be used.
pub open spec fn stored_list_spec(k: Key, cursor: Option<usize>, count: usize, usable: bool) -> StoredStep {
    let under = match cursor {
        Some(s) => if s < count {
            Some(s)
        } else {
            None
        },
        None => None,
    };
    if k == Key::Esc {
        StoredStep::Close
    } else if is_down(k) {
        StoredStep::MoveCursor(cursor_down_spec(cursor, count))
    } else if is_up(k) {
        StoredStep::MoveCursor(cursor_up_spec(cursor))
    } else if k == Key::Enter && usable {
        match under {
            Some(s) => StoredStep::Use(s),
            None => StoredStep::Nothing,
        }
    } else if k == Key::Char('d') || k == Key::Delete {
        match under {
            Some(s) => StoredStep::Remove(s),
            None => StoredStep::Nothing,
        }
    } else {
        StoredStep::Nothing
    }
}

pub fn handle_stored_list_key(k: Key, cursor: Option<usize>, count: usize, usable: bool) -> (r:
    StoredStep)
    ensures
        r == stored_list_spec(k, cursor, count, usable),
{
    let under = match cursor {
        Some(s) => if s < count {
            Some(s)
        } else {
            None
        },
        None => None,
    };
    if k == Key::Esc {
        StoredStep::Close
    } else if k == Key::Char('j') || k == Key::Down {
        StoredStep::MoveCursor(cursor_down(cursor, count))
    } else if k == Key::Char('k') || k == Key::Up {
        StoredStep::MoveCursor(cursor_up(cursor))
    } else if k == Key::Enter && usable {
        match under {
            Some(s) => StoredStep::Use(s),
            None => StoredStep::Nothing,
        }
    } else if k == Key::Char('d') || k == Key::Delete {
        match under {
            Some(s) => StoredStep::Remove(s),
            None => StoredStep::Nothing,
        }
    } else {
        StoredStep::Nothing
    }
}

/// Where the cursor goes once an entry was removed.
#[derive(Debug, Clone, Copy, PartialEq, Eq, Structural)]
pub enum AfterRemoval {
    /// Nothing is left: close the list.
    Close,
    /// The cursor was past the end: put it on the last entry.
    Select(usize),
    /// The cursor stays.
    Keep,
}

/// After removing the entry at `removed_at`, with `remaining` entries left.
pub fn after_removal(removed_at: usize, remaining: usize) -> (r: AfterRemoval)
    ensures
        remaining == 0 ==> r == AfterRemoval::Close,
        remaining > 0 && removed_at >= remaining ==> r == AfterRemoval::Select(
            (remaining - 1) as usize,
        ),
        remaining > 0 && removed_at < remaining ==> r == AfterRemoval::Keep,
{
    if remaining == 0 {
        AfterRemoval::Close
    } else if removed_at >= remaining {
        AfterRemoval::Select(remaining - 1)
    } else {
        AfterRemoval::Keep
    }
}

// ---------------------------------------------------------------------------
// Text inputs: the import path, a filter's or a template's name
// ---------------------------------------------------------------------------

/// What a key in a one-line text input asks for.
#[derive(Debug, Clone, Copy, PartialEq, Eq, Structural)]
pub enum TextStep {
    Nothing,
    Cancel,
    Submit,
}

/// A text input: characters are typed, `Backspace` deletes, `Enter`
/// submits (an empty text only where `allow_empty`), `Esc` cancels
/// (clearing the text where `clear_on_cancel`).
pub open spec fn text_input_spec(text: Seq<char>, k: Key, clear_on_cancel: bool, allow_empty: bool) -> (
    Seq<char>,
    TextStep,
) {
    match k {
        Key::Char(c) => (text.push(c), TextStep::Nothing),
        Key::Backspace => (drop_last_char(text), TextStep::Nothing),
        Key::Enter => if allow_empty || text.len() > 0 {
            (text, TextStep::Submit)
        } else {
            (text, TextStep::Nothing)
        },
        Key::Esc => (
            if clear_on_cancel {
                Seq::<char>::empty()
            } else {
                text
            },
            TextStep::Cancel,
        ),
        _ => (text, TextStep::Nothing),
    }
}

pub fn handle_text_input_key(text: &mut String, k: Key, clear_on_cancel: bool, allow_empty: bool) -> (r:
    TextStep)
    ensures
        (final(text)@, r) == text_input_spec(old(text)@, k, clear_on_cancel, allow_empty),
{
    match k {
        Key::Char(c) => {
            push_char(text, c);
            TextStep::Nothing
        },
        Key::Backspace => {
            let _ = pop_char(text);
            TextStep::Nothing
        },
        Key::Enter => if allow_empty || !text.as_str().is_empty() {
            TextStep::Submit
        } else {
            TextStep::Nothing
        },
        Key::Esc => {
            if clear_on_cancel {
                *text = String::new();
            }
            TextStep::Cancel
        },
        _ => TextStep::Nothing,
    }
}

// ---------------------------------------------------------------------------
// The replay and benchmark forms
// ---------------------------------------------------------------------------

/// The replay form: the time range and the destination topic.
pub struct ReplayForm {
    pub start: String,
    pub end: String,
    pub dest: String,
    /// 0 = start, 1 = end, 2 = destination.
    pub focused: usize,
}

impl View for ReplayForm {
    type V = (Seq<char>, Seq<char>, Seq<char>, usize);

    open spec fn view(&self) -> (Seq<char>, Seq<char>, Seq<char>, usize) {
        (self.start@, self.end@, self.dest@, self.focused)
    }
}

/// What a key in the replay form asks for.
#[derive(Debug, Clone, Copy, PartialEq, Eq, Structural)]
pub enum ReplayStep {
    Nothing,
    Close,
    /// A destination topic is required.
    NeedsDestination,
    Replay,
}

/// The replay form with the focused field's text replaced by `t`.
pub open spec fn replay_edit(m: (Seq<char>, Seq<char>, Seq<char>, usize), t: Seq<char>) -> (
    Seq<char>,
    Seq<char>,
    Seq<char>,
    usize,
) {
    if m.3 == 0 {
        (t, m.1, m.2, m.3)
    } else if m.3 == 1 {
        (m.0, t, m.2, m.3)
    } else {
        (m.0, m.1, t, m.3)
    }
}

pub open spec fn replay_focused_text(m: (Seq<char>, Seq<char>, Seq<char>, usize)) -> Seq<char> {
    if m.3 == 0 {
        m.0
    } else if m.3 == 1 {
        m.1
    } else {
        m.2
    }
}

pub open spec fn replay_key_spec(m: (Seq<char>, Seq<char>, Seq<char>, usize), k: Key) -> (
    (Seq<char>, Seq<char>, Seq<char>, usize),
    ReplayStep,
) {
    match k {
        Key::Esc => (m, ReplayStep::Close),
        Key::Tab | Key::Down => ((m.0, m.1, m.2, ((m.3 + 1) % 3) as usize), ReplayStep::Nothing),
        Key::BackTab | Key::Up => ((m.0, m.1, m.2, ((m.3 + 2) % 3) as usize), ReplayStep::Nothing),
        Key::Char(c) => (replay_edit(m, replay_focused_text(m).push(c)), ReplayStep::Nothing),
        Key::Backspace => (replay_edit(m, drop_last_char(replay_focused_text(m))), ReplayStep::Nothing),
        Key::Enter => if m.2.len() == 0 {
            (m, ReplayStep::NeedsDestination)
        } else {
            (m, ReplayStep::Replay)
        },
        _ => (m, ReplayStep::Nothing),
    }
}

fn replay_field(form: &mut ReplayForm) -> (r: &mut String)
    requires
        old(form).focused < 3,
    ensures
        *r == (if old(form).focused == 0 {
            old(form).start
        } else if old(form).focused == 1 {
            old(form).end
        } else {
            old(form).dest
        }),
        final(form)@ == replay_edit(old(form)@, final(r)@),
{
    if form.focused == 0 {
        &mut form.start
    } else if form.focused == 1 {
        &mut form.end
    } else {
        &mut form.dest
    }
}

pub fn handle_replay_key(form: &mut ReplayForm, k: Key) -> (r: ReplayStep)
    requires
        old(form).focused < 3,
    ensures
        (final(form)@, r) == replay_key_spec(old(form)@, k),
        final(form).focused < 3,
{
    match k {
        Key::Esc => ReplayStep::Close,
        Key::Tab | Key::Down => {
            form.focused = (form.focused + 1) % 3;
            ReplayStep::Nothing
        },
        Key::BackTab | Key::Up => {
            form.focused = (form.focused + 2) % 3;
            ReplayStep::Nothing
        },
        Key::Char(c) => {
            let f = replay_field(form);
            push_char(f, c);
            ReplayStep::Nothing
        },
        Key::Backspace => {
            let f = replay_field(form);
            let _ = pop_char(f);
            ReplayStep::Nothing
        },
        Key::Enter => if form.dest.as_str().is_empty() {
            ReplayStep::NeedsDestination
        } else {
            ReplayStep::Replay
        },
        _ => ReplayStep::Nothing,
    }
}

/// The benchmark form: how many messages, and how many senders.
pub struct BenchForm {
    pub count: String,
    pub concurrency: String,
    /// 0 = count, 1 = concurrency.
    pub focused: usize,
}

impl View for BenchForm {
    type V = (Seq<char>, Seq<char>, usize);

    open spec fn view(&self) -> (Seq<char>, Seq<char>, usize) {
        (self.count@, self.concurrency@, self.focused)
    }
}

/// What a key in the benchmark form asks for.
#[derive(Debug, Clone, Copy, PartialEq, Eq, Structural)]
pub enum BenchStep {
    Nothing,
    Close,
    Run,
}

pub open spec fn bench_edit(m: (Seq<char>, Seq<char>, usize), f: spec_fn(Seq<char>) -> Seq<char>) -> (
    Seq<char>,
    Seq<char>,
    usize,
) {
    if m.2 == 0 {
        (f(m.0), m.1, m.2)
    } else {
        (m.0, f(m.1), m.2)
    }
}

/// Only digits can be typed; the arrows and tabs switch between the two
/// fields.
pub open spec fn bench_key_spec(m: (Seq<char>, Seq<char>, usize), k: Key) -> (
    (Seq<char>, Seq<char>, usize),
    BenchStep,
) {
    match k {
        Key::Esc => (m, BenchStep::Close),
        Key::Tab | Key::Down | Key::BackTab | Key::Up => (
            (m.0, m.1, ((m.2 + 1) % 2) as usize),
            BenchStep::Nothing,
        ),
        Key::Char(c) => if '0' <= c && c <= '9' {
            (bench_edit(m, |t: Seq<char>| t.push(c)), BenchStep::Nothing)
        } else {
            (m, BenchStep::Nothing)
        },
        Key::Backspace => (bench_edit(m, |t: Seq<char>| drop_last_char(t)), BenchStep::Nothing),
        Key::Enter => (m, BenchStep::Run),
        _ => (m, BenchStep::Nothing),
    }
}

pub fn handle_bench_key(form: &mut BenchForm, k: Key) -> (r: BenchStep)
    requires
        old(form).focused < 2,
    ensures
        (final(form)@, r) == bench_key_spec(old(form)@, k),
        final(form).focused < 2,
{
    match k {
        Key::Esc => BenchStep::Close,
        Key::Tab | Key::Down | Key::BackTab | Key::Up => {
            form.focused = (form.focused + 1) % 2;
            BenchStep::Nothing
        },
        Key::Char(c) => {
            if '0' <= c && c <= '9' {
                if form.focused == 0 {
                    push_char(&mut form.count, c);
                } else {
                    push_char(&mut form.concurrency, c);
                }
            }
            BenchStep::Nothing
        },
        Key::Backspace => {
            if form.focused == 0 {
                let _ = pop_char(&mut form.count);
            } else {
                let _ = pop_char(&mut form.concurrency);
            }
            BenchStep::Nothing
        },
        Key::Enter => BenchStep::Run,
        _ => BenchStep::Nothing,
    }
}

} // verus!
