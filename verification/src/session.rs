//! The state of a browsing session: which screen and popup are up, the
//! queue and message lists with their filters, cursors and selections, and
//! the decisions taken when a background load comes back.

use vstd::prelude::*;
use crate::comparison::{compares, compute_comparison, QueueComparisonResult};
use crate::filters::{ascii_folded, eval_filter_expr, eval_spec, parse_filter_expr, parse_filter_spec};
use crate::json::json_document;
use crate::model::MessageInfo;
use crate::operations::{parse_x_death_value, x_death_spec};
use crate::text::{
    ascii_text, contains, contains_text, lowercase, matches_at, owned, push_str, same_text, to_lower,
};

verus! {

/// The screens of the browser.
#[derive(Debug, Clone, Copy, PartialEq, Eq, Structural)]
pub enum Screen {
    ProfileSelect,
    QueueList,
    MessageList,
    MessageDetail,
}

/// Moving or copying messages between queues.
#[derive(Debug, Clone, Copy, PartialEq, Eq, Structural)]
pub enum QueueOperation {
    Move,
    Copy,
}

/// The popup shown over the current screen.
#[derive(Debug)]
pub enum Popup {
    /// No popup is up.
    Closed,
    Help,
    ProfileSwitch,
    NamespacePicker,
    FetchCount,
    ThemePicker,
    BackendTypePicker,
    PublishMessage,
    ConfirmPurge,
    ConfirmDelete,
    QueuePicker(QueueOperation),
    MessageQueuePicker(QueueOperation),
    OperationProgress,
    ConfirmDeleteMessages,
    ExportMessages,
    ImportFile,
    QueueInfo,
    EditMessage,
    ConfirmReroute { exchange: String, routing_key: String, count: usize },
    ConsumerGroups,
    ResetOffsetPicker,
    ResetOffsetInput,
    ConfirmResetOffset,
    ScheduleDelay,
    ScheduledMessages,
    CompareQueuePicker,
    CompareResults,
    MessageDiff,
    SavedFilters,
    SaveFilter,
    TemplatePicker,
    SaveTemplate,
    ReplayConfig,
    TopologyView,
    BenchmarkConfig,
    BenchmarkRunning,
    RetainedMessages,
    Permissions,
}

impl Popup {
    /// Whether no popup is up.
    pub fn is_none(&self) -> (r: bool)
        ensures
            r == (*self is Closed),
    {
        match self {
            Popup::Closed => true,
            _ => false,
        }
    }
}

/// What the profile screen is doing.
#[derive(Debug)]
pub enum ProfileMode {
    Select,
    Add,
    /// Editing the profile of this name.
    Edit(String),
    ConfirmDelete,
}

// ---------------------------------------------------------------------------
// Presets
// ---------------------------------------------------------------------------

/// The message counts offered for fetching.
pub open spec fn fetch_presets_spec() -> Seq<u32> {
    seq![10u32, 25, 50, 100, 250, 500]
}

/// The message counts offered for fetching, in order.
pub fn fetch_presets() -> (r: Vec<u32>)
    ensures
        r@ == fetch_presets_spec(),
{
    let r = vec![10u32, 25, 50, 100, 250, 500];
    assert(r@ =~= fetch_presets_spec());
    r
}

/// The delays offered for scheduling a message, in seconds, with their
/// labels.
pub open spec fn schedule_presets_spec() -> Seq<(u64, Seq<char>)> {
    seq![
        (30u64, "30 seconds"@),
        (60u64, "1 minute"@),
        (300u64, "5 minutes"@),
        (600u64, "10 minutes"@),
        (1800u64, "30 minutes"@),
        (3600u64, "1 hour"@),
    ]
}

/// The delays offered for scheduling a message, in order.
pub fn schedule_presets() -> (r: Vec<(u64, &'static str)>)
    ensures
        r@.len() == schedule_presets_spec().len(),
        forall|i: int|
            0 <= i < r@.len() ==> #[trigger] r@[i].0 == schedule_presets_spec()[i].0 && r@[i].1@
                == schedule_presets_spec()[i].1,
{
    let r = vec![
        (30u64, "30 seconds"),
        (60u64, "1 minute"),
        (300u64, "5 minutes"),
        (600u64, "10 minutes"),
        (1800u64, "30 minutes"),
        (3600u64, "1 hour"),
    ];
    r
}

/// The broker kinds a profile can name.
pub open spec fn backend_types_spec() -> Seq<Seq<char>> {
    seq!["rabbitmq"@, "kafka"@, "mqtt"@]
}

/// The broker kinds a profile can name, in order.
pub fn backend_types() -> (r: Vec<&'static str>)
    ensures
        r@.len() == 3,
        forall|i: int| 0 <= i < 3 ==> #[trigger] r@[i]@ == backend_types_spec()[i],
{
    vec!["rabbitmq", "kafka", "mqtt"]
}

/// The position of `count` among the fetch presets; the third when it is
/// none of them.
pub open spec fn fetch_preset_index_spec(count: u32) -> int {
    let p = fetch_presets_spec();
    if exists|i: int| 0 <= i < p.len() && p[i] == count {
        choose|i: int| 0 <= i < p.len() && p[i] == count
    } else {
        2
    }
}

/// Where the fetch count picker opens.
pub fn fetch_preset_index(count: u32) -> (r: usize)
    ensures
        r == fetch_preset_index_spec(count),
        r < 6,
{
    let presets = fetch_presets();
    let mut i: usize = 0;
    while i < presets.len()
        invariant
            presets@ == fetch_presets_spec(),
            i <= presets@.len(),
            forall|j: int| 0 <= j < i ==> presets@[j] != count,
        decreases presets.len() - i,
    {
        if presets[i] == count {
            proof {
                let p = fetch_presets_spec();
                let c = choose|j: int| 0 <= j < p.len() && p[j] == count;
                assert(p[c] == p[i as int]);
                assert(c == i) by {
                    assert(p[0] == 10 && p[1] == 25 && p[2] == 50 && p[3] == 100 && p[4] == 250
                        && p[5] == 500);
                }
            }
            return i;
        }
        i = i + 1;
    }
    2
}

/// The fetch count after `+`: ten more, up to 500 and past it no more.
pub open spec fn fetch_more_spec(count: u32) -> u32 {
    if count < 500 {
        (count + 10) as u32
    } else {
        count
    }
}

pub fn fetch_more(count: u32) -> (r: u32)
    ensures
        r == fetch_more_spec(count),
{
    if count < 500 {
        count + 10
    } else {
        count
    }
}

/// The fetch count after `-`: ten less, but at least one.
pub open spec fn fetch_less_spec(count: u32) -> u32 {
    if count >= 11 {
        (count - 10) as u32
    } else {
        1
    }
}

pub fn fetch_less(count: u32) -> (r: u32)
    ensures
        r == fetch_less_spec(count),
{
    let c = count.saturating_sub(10);
    if c < 1 {
        1
    } else {
        c
    }
}

// ---------------------------------------------------------------------------
// Cursor movement
// ---------------------------------------------------------------------------

/// The cursor after moving down a list of `len` rows: one row further,
/// unless it is on the last row or the list is empty.
pub open spec fn cursor_down_spec(cursor: Option<usize>, len: usize) -> Option<usize> {
    let i = match cursor {
        Some(i) => i as int,
        None => 0,
    };
    if len > 0 && i + 1 < len {
        Some((i + 1) as usize)
    } else {
        cursor
    }
}

pub fn cursor_down(cursor: Option<usize>, len: usize) -> (r: Option<usize>)
    ensures
        r == cursor_down_spec(cursor, len),
{
    if len > 0 {
        let i = match cursor {
            Some(i) => i,
            None => 0,
        };
        if i < len - 1 {
            return Some(i + 1);
        }
    }
    cursor
}

/// The cursor after moving up: one row back, unless it is on the first.
pub open spec fn cursor_up_spec(cursor: Option<usize>) -> Option<usize> {
    match cursor {
        Some(i) => if i > 0 {
            Some((i - 1) as usize)
        } else {
            cursor
        },
        None => None,
    }
}

pub fn cursor_up(cursor: Option<usize>) -> (r: Option<usize>)
    ensures
        r == cursor_up_spec(cursor),
{
    match cursor {
        Some(i) => if i > 0 {
            Some(i - 1)
        } else {
            cursor
        },
        None => None,
    }
}

// ---------------------------------------------------------------------------
// Filtering
// ---------------------------------------------------------------------------

/// The positions below `n` at which `p` holds, in ascending order.
pub open spec fn positions(n: int, p: spec_fn(int) -> bool) -> Seq<usize>
    decreases n,
{
    if n <= 0 {
        Seq::empty()
    } else if p(n - 1) {
        positions(n - 1, p).push((n - 1) as usize)
    } else {
        positions(n - 1, p)
    }
}

/// The positions `0, 1, ..., n - 1`.
pub open spec fn all_positions(n: int) -> Seq<usize> {
    positions(n, |i: int| true)
}

pub proof fn lemma_positions(n: int, p: spec_fn(int) -> bool)
    requires
        0 <= n <= usize::MAX,
    ensures
        forall|k: int| 0 <= k < positions(n, p).len() ==> {
            &&& 0 <= #[trigger] positions(n, p)[k] < n
            &&& p(positions(n, p)[k] as int)
        },
        forall|a: int, b: int|
            0 <= a < b < positions(n, p).len() ==> positions(n, p)[a] < positions(n, p)[b],
        forall|i: int| 0 <= i < n && #[trigger] p(i) ==> positions(n, p).contains(i as usize),
    decreases n,
{
    if n > 0 {
        lemma_positions(n - 1, p);
        let prev = positions(n - 1, p);
        let cur = positions(n, p);
        if p(n - 1) {
            assert(cur == prev.push((n - 1) as usize));
            assert forall|k: int| 0 <= k < cur.len() implies {
                &&& 0 <= #[trigger] cur[k] < n
                &&& p(cur[k] as int)
            } by {
                if k < prev.len() {
                    assert(cur[k] == prev[k]);
                }
            }
            assert forall|a: int, b: int| 0 <= a < b < cur.len() implies cur[a] < cur[b] by {
                assert(cur[a] == prev[a]);
                if b < prev.len() {
                    assert(cur[b] == prev[b]);
                }
            }
            assert forall|i: int| 0 <= i < n && #[trigger] p(i) implies cur.contains(i as usize) by {
                if i == n - 1 {
                    assert(cur[prev.len() as int] == (n - 1) as usize);
                } else {
                    let k = choose|k: int| 0 <= k < prev.len() && prev[k] == i as usize;
                    assert(cur[k] == i as usize);
                }
            }
        } else {
            assert(cur == prev);
            assert forall|i: int| 0 <= i < n && #[trigger] p(i) implies cur.contains(i as usize) by {
                assert(i != n - 1);
            }
        }
    }
}

/// Whether a queue name passes the filter: any name passes an empty one,
/// otherwise the name must contain it, both in lower case.
pub open spec fn queue_matches(name: Seq<char>, filter: Seq<char>) -> bool {
    lowercase(filter).len() == 0 || contains(lowercase(name), lowercase(filter))
}

/// Whether a message passes the filter. An advanced filter is a filter
/// expression; a plain one must occur, in lower case, in the body or the
/// routing key in lower case.
pub open spec fn message_matches(m: MessageInfo, filter: Seq<char>, advanced: bool) -> bool {
    if advanced {
        eval_spec(parse_filter_spec(filter), m)
    } else {
        contains(lowercase(m.body@), lowercase(filter)) || contains(
            lowercase(m.routing_key@),
            lowercase(filter),
        )
    }
}

/// The positions of the messages shown under `filter`: all of them when
/// the filter is empty in lower case.
pub open spec fn message_positions(ms: Seq<MessageInfo>, filter: Seq<char>, advanced: bool) -> Seq<
    usize,
> {
    if lowercase(filter).len() == 0 {
        all_positions(ms.len() as int)
    } else {
        positions(ms.len() as int, |i: int| message_matches(ms[i], filter, advanced))
    }
}

/// Lower-casing ASCII text keeps every occurrence of a piece of it.
proof fn lemma_ascii_lower_keeps_occurrence(h: Seq<char>, n: Seq<char>)
    requires
        ascii_text(h),
        ascii_text(n),
        contains(h, n),
    ensures
        contains(lowercase(h), lowercase(n)),
{
    let k = choose|k: int| matches_at(h, n, k);
    assert(h.subrange(k, k + n.len()) == n);
    assert forall|j: int| 0 <= j < n.len() implies lowercase(h).subrange(k, k + n.len())[j] == lowercase(n)[j] by {
        assert(h.subrange(k, k + n.len())[j] == h[k + j]);
    }
    assert(lowercase(h).subrange(k, k + n.len()) =~= lowercase(n));
    assert(matches_at(lowercase(h), lowercase(n), k));
}

/// A plain message filter ignores letter case: ASCII filters that differ
/// only in the case of their letters show the same messages; and a message
/// whose body or routing key (ASCII text) holds the filter as typed is
/// shown.
pub proof fn lemma_plain_filter_ignores_case(ms: Seq<MessageInfo>, f: Seq<char>, g: Seq<char>)
    requires
        ascii_text(f),
        ascii_text(g),
        ascii_folded(f) == ascii_folded(g),
        ms.len() <= usize::MAX,
    ensures
        message_positions(ms, f, false) == message_positions(ms, g, false),
        forall|i: int|
            0 <= i < ms.len() && ((ascii_text(#[trigger] ms[i].body@) && contains(ms[i].body@, f)) || (
            ascii_text(ms[i].routing_key@) && contains(ms[i].routing_key@, f))) ==> message_positions(
                ms,
                f,
                false,
            ).contains(i as usize),
{
    assert(lowercase(f) =~= ascii_folded(f));
    assert(lowercase(g) =~= ascii_folded(g));
    let pf = |i: int| message_matches(ms[i], f, false);
    let pg = |i: int| message_matches(ms[i], g, false);
    assert(pf =~= pg);
    lemma_positions(ms.len() as int, pf);
    lemma_positions(ms.len() as int, |i: int| true);
    assert forall|i: int|
        0 <= i < ms.len() && ((ascii_text(#[trigger] ms[i].body@) && contains(ms[i].body@, f)) || (
        ascii_text(ms[i].routing_key@) && contains(ms[i].routing_key@, f))) implies message_positions(
            ms,
            f,
            false,
        ).contains(i as usize) by {
        if ascii_text(ms[i].body@) && contains(ms[i].body@, f) {
            lemma_ascii_lower_keeps_occurrence(ms[i].body@, f);
        } else {
            lemma_ascii_lower_keeps_occurrence(ms[i].routing_key@, f);
        }
        if lowercase(f).len() == 0 {
            assert((|j: int| true)(i));
        } else {
            assert(pf(i));
        }
    }
}

/// The positions of the queues shown under `filter`.
pub open spec fn queue_positions(names: Seq<String>, filter: Seq<char>) -> Seq<usize> {
    positions(names.len() as int, |i: int| queue_matches(names[i]@, filter))
}

/// The positions of the queue names that pass `filter`.
pub fn update_filtered_queues(names: &Vec<String>, filter: &str) -> (r: Vec<usize>)
    ensures
        r@ == queue_positions(names@, filter@),
{
    let f = to_lower(filter);
    let ghost p = |i: int| queue_matches(names@[i]@, filter@);
    let mut out: Vec<usize> = Vec::new();
    let mut i: usize = 0;
    while i < names.len()
        invariant
            i <= names@.len(),
            f@ == lowercase(filter@),
            p == (|i: int| queue_matches(names@[i]@, filter@)),
            out@ == positions(i as int, p),
        decreases names.len() - i,
    {
        let keep = if f.as_str().is_empty() {
            true
        } else {
            let n = to_lower(names[i].as_str());
            contains_text(n.as_str(), f.as_str())
        };
        assert(keep == p(i as int));
        if keep {
            out.push(i);
        }
        i = i + 1;
    }
    out
}

/// Whether one message passes the filter.
fn message_passes(m: &MessageInfo, filter: &str, lowered: &str, advanced: bool) -> (r: bool)
    requires
        lowered@ == lowercase(filter@),
    ensures
        r == message_matches(*m, filter@, advanced),
{
    if advanced {
        let expr = parse_filter_expr(filter);
        eval_filter_expr(&expr, m)
    } else {
        let body = to_lower(m.body.as_str());
        let key = to_lower(m.routing_key.as_str());
        contains_text(body.as_str(), lowered) || contains_text(key.as_str(), lowered)
    }
}

/// The positions of the messages shown under `filter`.
pub fn update_filtered_messages(messages: &Vec<MessageInfo>, filter: &str, advanced: bool) -> (r:
    Vec<usize>)
    ensures
        r@ == message_positions(messages@, filter@, advanced),
{
    let f = to_lower(filter);
    let empty = f.as_str().is_empty();
    let ghost p = if empty {
        |i: int| true
    } else {
        |i: int| message_matches(messages@[i], filter@, advanced)
    };
    let mut out: Vec<usize> = Vec::new();
    let mut i: usize = 0;
    while i < messages.len()
        invariant
            i <= messages@.len(),
            f@ == lowercase(filter@),
            empty == (f@.len() == 0),
            p == (if empty {
                |i: int| true
            } else {
                |i: int| message_matches(messages@[i], filter@, advanced)
            }),
            out@ == positions(i as int, p),
        decreases messages.len() - i,
    {
        let keep = empty || message_passes(&messages[i], filter, f.as_str(), advanced);
        assert(keep == p(i as int));
        if keep {
            out.push(i);
        }
        i = i + 1;
    }
    out
}

// ---------------------------------------------------------------------------
// The queue list
// ---------------------------------------------------------------------------

/// The queue list screen: the names of the loaded queues (their other
/// columns stay with the caller, in the same order), the filter, the
/// positions it shows and the cursor among them.
#[derive(Debug)]
pub struct QueueBrowser {
    pub names: Vec<String>,
    pub filter: String,
    pub filtered: Vec<usize>,
    pub cursor: Option<usize>,
}

/// The position of the queue under the cursor, if the cursor is on a row.
pub open spec fn selected_queue_spec(b: QueueBrowser) -> Option<usize> {
    match b.cursor {
        Some(c) => if c < b.filtered@.len() && b.filtered@[c as int] < b.names@.len() {
            Some(b.filtered@[c as int])
        } else {
            None
        },
        None => None,
    }
}

/// The first position `k` with `names[filtered[k]] == name`.
pub open spec fn shown_position(names: Seq<String>, filtered: Seq<usize>, name: Seq<char>) -> Option<
    int,
> {
    if exists|k: int| 0 <= k < filtered.len() && names[filtered[k] as int]@ == name {
        Some(
            choose|k: int|
                0 <= k < filtered.len() && names[filtered[k] as int]@ == name && forall|j: int|
                    0 <= j < k ==> names[filtered[j] as int]@ != name,
        )
    } else {
        None
    }
}

impl QueueBrowser {
    /// No queues, no filter, no cursor.
    pub fn new() -> (r: QueueBrowser)
        ensures
            r.names@.len() == 0,
            r.filter@ == Seq::<char>::empty(),
            r.filtered@.len() == 0,
            r.cursor is None,
    {
        QueueBrowser { names: Vec::new(), filter: String::new(), filtered: Vec::new(), cursor: None }
    }

    /// Recomputes the shown positions from the filter.
    pub fn refilter(&mut self)
        ensures
            final(self).filtered@ == queue_positions(old(self).names@, old(self).filter@),
            final(self).names == old(self).names,
            final(self).filter == old(self).filter,
            final(self).cursor == old(self).cursor,
    {
        self.filtered = update_filtered_queues(&self.names, self.filter.as_str());
    }

    /// The position of the queue under the cursor.
    pub fn selected_queue(&self) -> (r: Option<usize>)
        ensures
            r == selected_queue_spec(*self),
    {
        match self.cursor {
            Some(c) => {
                if c < self.filtered.len() && self.filtered[c] < self.names.len() {
                    Some(self.filtered[c])
                } else {
                    None
                }
            },
            None => None,
        }
    }

    /// The name of the queue under the cursor, empty when there is none
    /// (the queue whose consumer groups are shown).
    pub fn current_queue_name_for_groups(&self) -> (r: String)
        ensures
            selected_queue_spec(*self) matches Some(i) ==> r@ == self.names@[i as int]@,
            selected_queue_spec(*self) is None ==> r@ == Seq::<char>::empty(),
    {
        match self.selected_queue() {
            Some(i) => self.names[i].clone(),
            None => String::new(),
        }
    }

    /// Where a name is shown, if it is.
    fn find_shown(&self, name: &str) -> (r: Option<usize>)
        requires
            forall|k: int| 0 <= k < self.filtered@.len() ==> self.filtered@[k] < self.names@.len(),
        ensures
            r matches Some(k) ==> shown_position(self.names@, self.filtered@, name@) == Some(
                k as int,
            ),
            r is None ==> shown_position(self.names@, self.filtered@, name@) is None,
    {
        let mut k: usize = 0;
        while k < self.filtered.len()
            invariant
                k <= self.filtered@.len(),
                forall|j: int| 0 <= j < self.filtered@.len() ==> self.filtered@[j] < self.names@.len(),
                forall|j: int| 0 <= j < k ==> self.names@[self.filtered@[j] as int]@ != name@,
            decreases self.filtered.len() - k,
        {
            if same_text(self.names[self.filtered[k]].as_str(), name) {
                proof {
                    let f = self.filtered@;
                    let ns = self.names@;
                    assert(exists|q: int| 0 <= q < f.len() && ns[f[q] as int]@ == name@);
                    let c = choose|q: int|
                        0 <= q < f.len() && ns[f[q] as int]@ == name@ && forall|j: int|
                            0 <= j < q ==> ns[f[j] as int]@ != name@;
                    assert(c == k as int) by {
                        if c < k {
                        } else if c > k {
                            assert(ns[f[k as int] as int]@ == name@);
                        }
                    }
                }
                return Some(k);
            }
            k = k + 1;
        }
        None
    }

    /// Takes a freshly loaded list of queues: refilters, and keeps the
    /// cursor on the queue it was on when that queue is still shown, else
    /// moves it to the first row if there is one.
    pub fn load(&mut self, names: Vec<String>)
        ensures
            final(self).names@ == names@,
            final(self).filter == old(self).filter,
            final(self).filtered@ == queue_positions(names@, old(self).filter@),
            ({
                let prev = selected_queue_spec(*old(self));
                let shown = final(self).filtered@;
                match prev {
                    Some(i) => match shown_position(names@, shown, old(self).names@[i as int]@) {
                        Some(k) => final(self).cursor == Some(k as usize),
                        None => if shown.len() > 0 {
                            final(self).cursor == Some(0usize)
                        } else {
                            final(self).cursor == old(self).cursor
                        },
                    },
                    None => if shown.len() > 0 {
                        final(self).cursor == Some(0usize)
                    } else {
                        final(self).cursor == old(self).cursor
                    },
                }
            }),
    {
        let previous = match self.selected_queue() {
            Some(i) => Some(self.names[i].clone()),
            None => None,
        };
        self.names = names;
        self.refilter();
        let count = self.names.len();
        proof {
            lemma_positions(count as int, |i: int| queue_matches(self.names@[i]@, self.filter@));
        }
        match previous {
            Some(prev) => {
                match self.find_shown(prev.as_str()) {
                    Some(k) => {
                        self.cursor = Some(k);
                    },
                    None => {
                        if self.filtered.len() > 0 {
                            self.cursor = Some(0);
                        }
                    },
                }
            },
            None => {
                if self.filtered.len() > 0 {
                    self.cursor = Some(0);
                }
            },
        }
    }
}

// ---------------------------------------------------------------------------
// The message list
// ---------------------------------------------------------------------------

/// Each element of `s` is smaller than every later one.
pub open spec fn increasing(s: Seq<usize>) -> bool {
    forall|a: int, b: int| 0 <= a < b < s.len() ==> s[a] < s[b]
}

/// The message list screen: the loaded messages, the filter and the
/// positions it shows, the cursor among them, and the set of selected
/// message positions.
#[derive(Debug)]
pub struct MessageBrowser {
    messages: Vec<MessageInfo>,
    filter: String,
    advanced: bool,
    filtered: Vec<usize>,
    cursor: Option<usize>,
    selected: Vec<usize>,
}

impl MessageBrowser {
    #[verifier::type_invariant]
    spec fn well_formed(self) -> bool {
        &&& increasing(self.selected@)
        &&& self.filtered@ == message_positions(self.messages@, self.filter@, self.advanced)
    }

    pub closed spec fn messages_view(&self) -> Seq<MessageInfo> {
        self.messages@
    }

    pub closed spec fn filter_view(&self) -> Seq<char> {
        self.filter@
    }

    pub closed spec fn advanced_view(&self) -> bool {
        self.advanced
    }

    pub closed spec fn filtered_view(&self) -> Seq<usize> {
        self.filtered@
    }

    pub closed spec fn cursor_view(&self) -> Option<usize> {
        self.cursor
    }

    /// The selected positions in ascending order.
    pub closed spec fn selected_view(&self) -> Seq<usize> {
        self.selected@
    }

    /// The selected positions as a set.
    pub open spec fn selection(&self) -> Set<usize> {
        self.selected_view().to_set()
    }

    /// Nothing loaded.
    pub fn new() -> (r: MessageBrowser)
        ensures
            r.messages_view().len() == 0,
            r.filter_view() == Seq::<char>::empty(),
            !r.advanced_view(),
            r.filtered_view().len() == 0,
            r.cursor_view() is None,
            r.selected_view().len() == 0,
    {
        MessageBrowser {
            messages: Vec::new(),
            filter: String::new(),
            advanced: false,
            filtered: Vec::new(),
            cursor: None,
            selected: Vec::new(),
        }
    }

    /// The loaded messages.
    pub fn messages(&self) -> (r: &Vec<MessageInfo>)
        ensures
            r@ == self.messages_view(),
    {
        &self.messages
    }

    /// The positions shown.
    pub fn filtered(&self) -> (r: &Vec<usize>)
        ensures
            r@ == self.filtered_view(),
            r@ == message_positions(self.messages_view(), self.filter_view(), self.advanced_view()),
    {
        proof {
            use_type_invariant(self);
        }
        &self.filtered
    }

    /// The cursor.
    pub fn cursor(&self) -> (r: Option<usize>)
        ensures
            r == self.cursor_view(),
    {
        self.cursor
    }

    /// Whether the filter is an expression.
    pub fn is_advanced(&self) -> (r: bool)
        ensures
            r == self.advanced_view(),
    {
        self.advanced
    }

    /// Puts the cursor on row `c` of the shown messages (or nowhere).
    pub fn set_cursor(&mut self, c: Option<usize>)
        ensures
            final(self).cursor_view() == c,
            final(self).messages_view() == old(self).messages_view(),
            final(self).filtered_view() == old(self).filtered_view(),
            final(self).selected_view() == old(self).selected_view(),
            final(self).filter_view() == old(self).filter_view(),
            final(self).advanced_view() == old(self).advanced_view(),
    {
        proof {
            use_type_invariant(&*self);
        }
        self.cursor = c;
    }

    /// Empties the selection.
    pub fn clear_selection(&mut self)
        ensures
            final(self).selected_view().len() == 0,
            final(self).selection() == Set::<usize>::empty(),
            final(self).messages_view() == old(self).messages_view(),
            final(self).filtered_view() == old(self).filtered_view(),
            final(self).cursor_view() == old(self).cursor_view(),
            final(self).filter_view() == old(self).filter_view(),
            final(self).advanced_view() == old(self).advanced_view(),
    {
        proof {
            use_type_invariant(&*self);
        }
        self.selected = Vec::new();
        assert(self.selected@.to_set() =~= Set::<usize>::empty());
    }

    /// The filter text.
    pub fn filter(&self) -> (r: &str)
        ensures
            r@ == self.filter_view(),
    {
        self.filter.as_str()
    }

    /// The selected positions in ascending order.
    pub fn selected(&self) -> (r: &Vec<usize>)
        ensures
            r@ == self.selected_view(),
            increasing(r@),
    {
        proof {
            use_type_invariant(self);
        }
        &self.selected
    }

    /// Empties the list for a queue about to be loaded.
    pub fn clear(&mut self)
        ensures
            final(self).messages_view().len() == 0,
            final(self).filtered_view().len() == 0,
            final(self).selected_view().len() == 0,
            final(self).cursor_view() is None,
            final(self).filter_view() == old(self).filter_view(),
            final(self).advanced_view() == old(self).advanced_view(),
    {
        let filter = self.filter.clone();
        let advanced = self.advanced;
        let empty: Vec<MessageInfo> = Vec::new();
        assert(message_positions(empty@, filter@, advanced) =~= Seq::<usize>::empty());
        *self = MessageBrowser {
            messages: empty,
            filter,
            advanced,
            filtered: Vec::new(),
            cursor: None,
            selected: Vec::new(),
        };
    }


    /// Sets the filter and whether it is an expression, and refilters.
    pub fn set_filter(&mut self, filter: String, advanced: bool)
        ensures
            final(self).filter_view() == filter@,
            final(self).advanced_view() == advanced,
            final(self).filtered_view() == message_positions(
                old(self).messages_view(),
                filter@,
                advanced,
            ),
            final(self).messages_view() == old(self).messages_view(),
            final(self).cursor_view() == old(self).cursor_view(),
            final(self).selected_view() == old(self).selected_view(),
    {
        proof {
            use_type_invariant(&*self);
        }
        let filtered = update_filtered_messages(&self.messages, filter.as_str(), advanced);
        let mut current = MessageBrowser::new();
        std::mem::swap(&mut current, self);
        let MessageBrowser { messages, cursor, selected, .. } = current;
        *self = MessageBrowser { messages, filter, advanced, filtered, cursor, selected };
    }

    /// Takes freshly loaded messages: clears the selection, refilters and
    /// puts the cursor on the first row if there is one.
    pub fn load(&mut self, messages: Vec<MessageInfo>)
        ensures
            final(self).messages_view() == messages@,
            final(self).selected_view().len() == 0,
            final(self).filter_view() == old(self).filter_view(),
            final(self).advanced_view() == old(self).advanced_view(),
            final(self).filtered_view() == message_positions(
                messages@,
                old(self).filter_view(),
                old(self).advanced_view(),
            ),
            final(self).filtered_view().len() > 0 ==> final(self).cursor_view() == Some(0usize),
            final(self).filtered_view().len() == 0 ==> final(self).cursor_view() == old(self).cursor_view(),
    {
        let filtered = update_filtered_messages(&messages, self.filter.as_str(), self.advanced);
        let cursor = if filtered.len() > 0 {
            Some(0)
        } else {
            self.cursor
        };
        let filter = self.filter.clone();
        *self = MessageBrowser {
            messages,
            filter,
            advanced: self.advanced,
            filtered,
            cursor,
            selected: Vec::new(),
        };
    }

    /// Moves the cursor one row down.
    pub fn cursor_down(&mut self)
        ensures
            final(self).cursor_view() == cursor_down_spec(
                old(self).cursor_view(),
                old(self).filtered_view().len() as usize,
            ),
            final(self).messages_view() == old(self).messages_view(),
            final(self).filtered_view() == old(self).filtered_view(),
            final(self).selected_view() == old(self).selected_view(),
            final(self).filter_view() == old(self).filter_view(),
            final(self).advanced_view() == old(self).advanced_view(),
    {
        proof {
            use_type_invariant(&*self);
        }
        self.cursor = cursor_down(self.cursor, self.filtered.len());
    }

    /// Moves the cursor one row up.
    pub fn cursor_up(&mut self)
        ensures
            final(self).cursor_view() == cursor_up_spec(old(self).cursor_view()),
            final(self).messages_view() == old(self).messages_view(),
            final(self).filtered_view() == old(self).filtered_view(),
            final(self).selected_view() == old(self).selected_view(),
            final(self).filter_view() == old(self).filter_view(),
            final(self).advanced_view() == old(self).advanced_view(),
    {
        proof {
            use_type_invariant(&*self);
        }
        self.cursor = cursor_up(self.cursor);
    }

    /// The position of the message under the cursor, if the cursor is on a
    /// shown row.
    pub open spec fn highlighted(&self) -> Option<usize> {
        match self.cursor_view() {
            Some(c) => if c < self.filtered_view().len() {
                Some(self.filtered_view()[c as int])
            } else {
                None
            },
            None => None,
        }
    }

    pub fn highlighted_position(&self) -> (r: Option<usize>)
        ensures
            r == self.highlighted(),
    {
        match self.cursor {
            Some(c) => if c < self.filtered.len() {
                Some(self.filtered[c])
            } else {
                None
            },
            None => None,
        }
    }

    /// The message under the cursor.
    pub fn selected_message(&self) -> (r: Option<&MessageInfo>)
        ensures
            r matches Some(m) ==> (self.highlighted() matches Some(i) && i
                < self.messages_view().len() && *m == self.messages_view()[i as int]),
            r is None ==> (self.highlighted() matches Some(i) ==> i >= self.messages_view().len()),
    {
        match self.highlighted_position() {
            Some(i) => if i < self.messages.len() {
                Some(&self.messages[i])
            } else {
                None
            },
            None => None,
        }
    }

    /// How many messages an action on the selection applies to: the
    /// selected ones, or else the one under the cursor when there is a
    /// cursor.
    pub fn selection_count(&self) -> (r: usize)
        ensures
            self.selection().len() > 0 ==> r == self.selection().len(),
            self.selection().len() == 0 ==> r == (if self.cursor_view() is Some {
                1usize
            } else {
                0usize
            }),
    {
        proof {
            use_type_invariant(self);
            lemma_increasing_set(self.selected@);
        }
        if self.selected.len() == 0 {
            if self.cursor.is_some() {
                1
            } else {
                0
            }
        } else {
            self.selected.len()
        }
    }

    /// Adds the message under the cursor to the selection, or takes it
    /// out if it is in.
    pub fn toggle_message_selection(&mut self)
        ensures
            final(self).selection() == toggled(
                old(self).selection(),
                old(self).cursor_view(),
                old(self).filtered_view(),
            ),
            final(self).messages_view() == old(self).messages_view(),
            final(self).filtered_view() == old(self).filtered_view(),
            final(self).cursor_view() == old(self).cursor_view(),
            final(self).filter_view() == old(self).filter_view(),
            final(self).advanced_view() == old(self).advanced_view(),
    {
        proof {
            use_type_invariant(&*self);
        }
        match self.highlighted_position() {
            Some(i) => {
                let ghost before = self.selected@;
                let mut p: usize = 0;
                while p < self.selected.len() && self.selected[p] < i
                    invariant
                        p <= self.selected@.len(),
                        before == self.selected@,
                        increasing(before),
                        forall|j: int| 0 <= j < p ==> before[j] < i,
                    decreases self.selected.len() - p,
                {
                    p = p + 1;
                }
                let mut sel = Vec::new();
                std::mem::swap(&mut sel, &mut self.selected);
                if p < sel.len() && sel[p] == i {
                    sel.remove(p);
                    proof {
                        assert(sel@ == before.remove(p as int));
                        lemma_remove_from_increasing(before, p as int);
                    }
                } else {
                    sel.insert(p, i);
                    proof {
                        assert(sel@ == before.insert(p as int, i));
                        lemma_insert_into_increasing(before, p as int, i);
                    }
                }
                self.selected = sel;
            },
            None => {},
        }
    }

    /// Selects every shown message, or clears the selection when every
    /// shown message is already selected.
    pub fn select_all_messages(&mut self)
        ensures
            old(self).filtered_view().to_set().subset_of(old(self).selection()) ==> final(self).selection()
                == Set::<usize>::empty(),
            !old(self).filtered_view().to_set().subset_of(old(self).selection()) ==> final(self).selection()
                == old(self).filtered_view().to_set(),
            final(self).messages_view() == old(self).messages_view(),
            final(self).filtered_view() == old(self).filtered_view(),
            final(self).cursor_view() == old(self).cursor_view(),
            final(self).filter_view() == old(self).filter_view(),
            final(self).advanced_view() == old(self).advanced_view(),
    {
        proof {
            use_type_invariant(&*self);
            lemma_increasing_set(self.selected@);
        }
        let mut all_selected = true;
        let mut k: usize = 0;
        while k < self.filtered.len()
            invariant
                k <= self.filtered@.len(),
                all_selected == forall|j: int| 0 <= j < k ==> self.selected@.contains(#[trigger] self.filtered@[j]),
            decreases self.filtered.len() - k,
        {
            if !has_position(&self.selected, self.filtered[k]) {
                all_selected = false;
            }
            k = k + 1;
        }
        proof {
            if all_selected {
                assert forall|x: usize| self.filtered@.to_set().contains(x) implies self.selected@.to_set().contains(x) by {
                    let j = choose|j: int| 0 <= j < self.filtered@.len() && self.filtered@[j] == x;
                    assert(self.selected@.contains(self.filtered@[j]));
                }
            } else {
                let j = choose|j: int| 0 <= j < self.filtered@.len() && !self.selected@.contains(#[trigger] self.filtered@[j]);
                assert(self.filtered@.to_set().contains(self.filtered@[j]));
                assert(!self.selected@.to_set().contains(self.filtered@[j]));
            }
        }
        if all_selected {
            self.selected = Vec::new();
            assert(self.selected@.to_set() =~= Set::<usize>::empty());
        } else {
            let n = self.messages.len();
            proof {
                let p = if lowercase(self.filter@).len() == 0 {
                    |i: int| true
                } else {
                    |i: int| message_matches(self.messages@[i], self.filter@, self.advanced)
                };
                lemma_positions(n as int, p);
                lemma_increasing_set(self.filtered@);
            }
            let sorted = sorted_distinct(&self.filtered);
            proof {
                lemma_increasing_set(sorted@);
            }
            self.selected = sorted;
        }
    }

    /// The positions of the messages an action applies to: the selected
    /// ones in ascending order (positions past the list are skipped), or
    /// else the one under the cursor.
    pub open spec fn target_positions(&self) -> Seq<usize> {
        if self.selection().len() == 0 {
            match self.highlighted() {
                Some(i) => if i < self.messages_view().len() {
                    seq![i]
                } else {
                    Seq::empty()
                },
                None => Seq::empty(),
            }
        } else {
            self.selected_view().filter(|i: usize| i < self.messages_view().len())
        }
    }

    /// The positions that deleting removes: the selected ones, or else the
    /// one under the cursor; `None` when there is neither.
    pub fn delete_positions(&self) -> (r: Option<Vec<usize>>)
        ensures
            self.selection().len() > 0 ==> (r matches Some(v) && v@ == self.selected_view()),
            self.selection().len() == 0 ==> match self.highlighted() {
                Some(i) => r matches Some(v) && v@ == seq![i],
                None => r is None,
            },
    {
        proof {
            use_type_invariant(self);
            lemma_increasing_set(self.selected@);
        }
        if self.selected.len() == 0 {
            assert(self.selected@ =~= Seq::<usize>::empty());
            match self.highlighted_position() {
                Some(i) => Some(vec![i]),
                None => None,
            }
        } else {
            assert(self.selected@.contains(self.selected@[0]));
            Some(self.selected.clone())
        }
    }

    /// Copies of the messages an action applies to.
    pub fn get_target_messages(&self) -> (r: Vec<MessageInfo>)
        ensures
            r@.len() == self.target_positions().len(),
            forall|k: int|
                0 <= k < r@.len() ==> #[trigger] r@[k].same_as(
                    self.messages_view()[self.target_positions()[k] as int],
                ),
            forall|k: int|
                0 <= k < r@.len() ==> self.target_positions()[k] < self.messages_view().len(),
    {
        proof {
            use_type_invariant(self);
            lemma_increasing_set(self.selected@);
        }
        if self.selected.len() == 0 {
            match self.highlighted_position() {
                Some(i) => if i < self.messages.len() {
                    let m = self.messages[i].duplicate();
                    let r = vec![m];
                    assert(self.target_positions() == seq![i]);
                    return r;
                },
                None => {},
            }
            return Vec::new();
        }
        assert(self.selection().len() > 0);
        let ghost keep = |i: usize| i < self.messages@.len();
        let mut out: Vec<MessageInfo> = Vec::new();
        let mut k: usize = 0;
        while k < self.selected.len()
            invariant
                k <= self.selected@.len(),
                keep == (|i: usize| i < self.messages@.len()),
                out@.len() == self.selected@.take(k as int).filter(keep).len(),
                forall|j: int|
                    0 <= j < out@.len() ==> #[trigger] out@[j].same_as(
                        self.messages@[self.selected@.take(k as int).filter(keep)[j] as int],
                    ),
            decreases self.selected.len() - k,
        {
            let idx = self.selected[k];
            proof {
                let s = self.selected@;
                assert(s.take(k + 1) =~= s.take(k as int).push(idx));
                s.take(k as int).lemma_filter_push(idx, keep);
            }
            if idx < self.messages.len() {
                let ghost before = out@;
                out.push(self.messages[idx].duplicate());
                proof {
                    assert forall|j: int| 0 <= j < out@.len() implies #[trigger] out@[j].same_as(
                        self.messages@[self.selected@.take(k + 1).filter(keep)[j] as int],
                    ) by {
                        if j < before.len() {
                            assert(out@[j] == before[j]);
                        }
                    }
                }
            }
            k = k + 1;
        }
        assert(self.selected@.take(self.selected@.len() as int) =~= self.selected@);
        proof {
            broadcast use vstd::seq_lib::group_filter_ensures;
            assert(self.target_positions() == self.selected@.filter(keep));
        }
        out
    }

    /// The exchange and routing key a dead-lettered message was first sent with:
    /// read from the first `x-death` header of the first message an action
    /// applies to.
    pub fn parse_dlq_info(&self) -> (r: Option<(String, String)>)
        ensures
            ({
                let t = self.target_positions();
                let found = if t.len() > 0 {
                    dead_letter_spec(self.messages_view()[t[0] as int].headers@)
                } else {
                    None
                };
                &&& r is None <==> found is None
                &&& r matches Some(q) ==> found == Some((q.0@, q.1@))
            }),
    {
        let targets = self.get_target_messages();
        if targets.len() == 0 {
            return None;
        }
        assert(targets@[0].same_as(self.messages_view()[self.target_positions()[0] as int]));
        dead_letter_origin(&targets[0].headers)
    }
}

/// What the first `x-death` header among `h` says of where a message was
/// first published.
pub open spec fn dead_letter_spec(h: Seq<(String, String)>) -> Option<(Seq<char>, Seq<char>)> {
    match first_header(h, "x-death"@) {
        Some(v) => x_death_spec(json_document(v)),
        None => None,
    }
}

/// The exchange and routing key a dead-lettered message was first
/// published with, read from its first `x-death` header.
pub fn dead_letter_origin(headers: &Vec<(String, String)>) -> (r: Option<(String, String)>)
    ensures
        r is None <==> dead_letter_spec(headers@) is None,
        r matches Some(q) ==> dead_letter_spec(headers@) == Some((q.0@, q.1@)),
{
    assert(headers@.skip(0) =~= headers@);
    let mut k: usize = 0;
    while k < headers.len()
        invariant
            k <= headers@.len(),
            first_header(headers@, "x-death"@) == first_header(headers@.skip(k as int), "x-death"@),
        decreases headers.len() - k,
    {
        assert(headers@.skip(k as int)[0] == headers@[k as int]);
        assert(headers@.skip(k as int).drop_first() =~= headers@.skip(k + 1));
        if same_text(headers[k].0.as_str(), "x-death") {
            assert(first_header(headers@, "x-death"@) == Some(headers@[k as int].1@));
            return parse_x_death_value(headers[k].1.as_str());
        }
        k = k + 1;
    }
    None
}

/// The selection after toggling the message under the cursor: it leaves
/// the selection if it was in, and joins it if not. Without a cursor on a
/// shown row nothing changes.
pub open spec fn toggled(sel: Set<usize>, cursor: Option<usize>, shown: Seq<usize>) -> Set<usize> {
    match cursor {
        Some(c) => if c < shown.len() {
            let i = shown[c as int];
            if sel.contains(i) {
                sel.remove(i)
            } else {
                sel.insert(i)
            }
        } else {
            sel
        },
        None => sel,
    }
}

/// Toggling the same message twice gives back the selection.
pub proof fn lemma_toggle_twice(sel: Set<usize>, cursor: Option<usize>, shown: Seq<usize>)
    ensures
        toggled(toggled(sel, cursor, shown), cursor, shown) == sel,
{
    if let Some(c) = cursor {
        if c < shown.len() {
            let i = shown[c as int];
            if sel.contains(i) {
                assert(sel.remove(i).insert(i) =~= sel);
            } else {
                assert(sel.insert(i).remove(i) =~= sel);
            }
        }
    }
}

/// The value of the first header named exactly `key`.
pub open spec fn first_header(h: Seq<(String, String)>, key: Seq<char>) -> Option<Seq<char>>
    decreases h.len(),
{
    if h.len() == 0 {
        None
    } else if h[0].0@ == key {
        Some(h[0].1@)
    } else {
        first_header(h.drop_first(), key)
    }
}

// ---------------------------------------------------------------------------
// Background results
// ---------------------------------------------------------------------------

/// Where browsing goes once the namespaces are listed.
#[derive(Debug)]
pub enum NamespaceChoice {
    /// There are none: the error `No namespaces available`.
    Unavailable,
    /// Browse this namespace.
    Use(String),
    /// Browse this namespace, with the picker open on it (the first row).
    Pick(String),
}

/// Whether `v` holds `x`.
pub open spec fn holds_text(v: Seq<String>, x: Seq<char>) -> bool {
    exists|i: int| 0 <= i < v.len() && v[i]@ == x
}

/// Chooses the namespace: the only one; else the profile's own one when it
/// names a listed namespace (the first namespace when it names another);
/// else the first, with the picker open.
pub fn choose_namespace(namespaces: &Vec<String>, configured: Option<&str>) -> (r: NamespaceChoice)
    ensures
        namespaces@.len() == 0 ==> r is Unavailable,
        namespaces@.len() == 1 ==> (r matches NamespaceChoice::Use(n) && n@ == namespaces@[0]@),
        namespaces@.len() > 1 ==> match configured {
            Some(v) => if v@.len() > 0 {
                r matches NamespaceChoice::Use(n) && n@ == (if holds_text(namespaces@, v@) {
                    v@
                } else {
                    namespaces@[0]@
                })
            } else {
                r matches NamespaceChoice::Pick(n) && n@ == namespaces@[0]@
            },
            None => r matches NamespaceChoice::Pick(n) && n@ == namespaces@[0]@,
        },
{
    if namespaces.len() == 0 {
        return NamespaceChoice::Unavailable;
    }
    if namespaces.len() == 1 {
        return NamespaceChoice::Use(namespaces[0].clone());
    }
    match configured {
        Some(v) => {
            if !v.is_empty() {
                let mut i: usize = 0;
                while i < namespaces.len()
                    invariant
                        i <= namespaces@.len(),
                        namespaces@.len() > 1,
                        configured == Some(v),
                        v@.len() > 0,
                        forall|k: int| 0 <= k < i ==> namespaces@[k]@ != v@,
                    decreases namespaces.len() - i,
                {
                    if same_text(namespaces[i].as_str(), v) {
                        assert(namespaces@[i as int]@ == v@);
                        assert(holds_text(namespaces@, v@));
                        return NamespaceChoice::Use(owned(v));
                    }
                    i = i + 1;
                }
                return NamespaceChoice::Use(namespaces[0].clone());
            }
            NamespaceChoice::Pick(namespaces[0].clone())
        },
        None => NamespaceChoice::Pick(namespaces[0].clone()),
    }
}

/// The text of a queue that could not be loaded for comparison.
pub open spec fn load_failure(queue: Seq<char>, e: Seq<char>) -> Seq<char> {
    "Failed to load "@ + queue + ": "@ + e
}

/// The comparison of two loaded queues, or the first load's error.
pub fn comparison_outcome(
    queue_a: &str,
    queue_b: &str,
    messages_a: Result<Vec<MessageInfo>, String>,
    messages_b: Result<Vec<MessageInfo>, String>,
) -> (r: Result<QueueComparisonResult, String>)
    ensures
        messages_a matches Ok(ma) ==> (messages_b matches Ok(mb) ==> (r matches Ok(c) && compares(
            c,
            queue_a@,
            queue_b@,
            ma@,
            mb@,
        ))),
        messages_a matches Err(e) ==> (r matches Err(t) && t@ == load_failure(queue_a@, e@)),
        messages_a is Ok ==> (messages_b matches Err(e) ==> (r matches Err(t) && t@ == load_failure(
            queue_b@,
            e@,
        ))),
{
    match (messages_a, messages_b) {
        (Ok(ma), Ok(mb)) => Ok(compute_comparison(queue_a, queue_b, ma, mb)),
        (Err(e), _) => {
            let mut t = owned("Failed to load ");
            push_str(&mut t, queue_a);
            push_str(&mut t, ": ");
            push_str(&mut t, e.as_str());
            Err(t)
        },
        (_, Err(e)) => {
            let mut t = owned("Failed to load ");
            push_str(&mut t, queue_b);
            push_str(&mut t, ": ");
            push_str(&mut t, e.as_str());
            Err(t)
        },
    }
}


// ---------------------------------------------------------------------------
// Sets as increasing lists
// ---------------------------------------------------------------------------

/// An increasing list has as many elements as its set.
pub proof fn lemma_increasing_set(s: Seq<usize>)
    requires
        increasing(s),
    ensures
        s.to_set().len() == s.len(),
        s.to_set().finite(),
{
    assert(s.no_duplicates()) by {
        assert forall|a: int, b: int| 0 <= a < s.len() && 0 <= b < s.len() && a != b implies s[a]
            != s[b] by {
            if a < b {
            } else {
            }
        }
    }
    s.unique_seq_to_set();
    vstd::seq_lib::seq_to_set_is_finite(s);
}

proof fn lemma_remove_from_increasing(s: Seq<usize>, p: int)
    requires
        increasing(s),
        0 <= p < s.len(),
    ensures
        increasing(s.remove(p)),
        s.remove(p).to_set() == s.to_set().remove(s[p]),
{
    let t = s.remove(p);
    assert forall|a: int, b: int| 0 <= a < b < t.len() implies t[a] < t[b] by {
        if b < p {
        } else if a < p {
            assert(t[b] == s[b + 1]);
        } else {
            assert(t[a] == s[a + 1] && t[b] == s[b + 1]);
        }
    }
    assert forall|x: usize| #[trigger] t.to_set().contains(x) <==> s.to_set().remove(s[p]).contains(
        x,
    ) by {
        if t.contains(x) {
            let k = choose|k: int| 0 <= k < t.len() && t[k] == x;
            if k < p {
                assert(s[k] == x);
            } else {
                assert(s[k + 1] == x);
            }
        }
        if s.contains(x) && x != s[p] {
            let k = choose|k: int| 0 <= k < s.len() && s[k] == x;
            if k < p {
                assert(t[k] == x);
            } else {
                assert(k != p);
                assert(t[k - 1] == x);
            }
        }
    }
    assert(t.to_set() =~= s.to_set().remove(s[p]));
}

proof fn lemma_insert_into_increasing(s: Seq<usize>, p: int, x: usize)
    requires
        increasing(s),
        0 <= p <= s.len(),
        forall|j: int| 0 <= j < p ==> s[j] < x,
        p < s.len() ==> s[p] != x,
        p < s.len() ==> s[p] >= x,
    ensures
        increasing(s.insert(p, x)),
        s.insert(p, x).to_set() == s.to_set().insert(x),
{
    let t = s.insert(p, x);
    assert forall|a: int, b: int| 0 <= a < b < t.len() implies t[a] < t[b] by {
        if b < p {
        } else if b == p {
        } else if a == p {
            assert(t[b] == s[b - 1]);
        } else if a < p {
            assert(t[b] == s[b - 1]);
        } else {
            assert(t[a] == s[a - 1] && t[b] == s[b - 1]);
        }
    }
    assert forall|y: usize| #[trigger] t.to_set().contains(y) <==> s.to_set().insert(x).contains(y) by {
        if t.contains(y) {
            let k = choose|k: int| 0 <= k < t.len() && t[k] == y;
            if k < p {
                assert(s[k] == y);
            } else if k > p {
                assert(s[k - 1] == y);
            }
        }
        if s.contains(y) {
            let k = choose|k: int| 0 <= k < s.len() && s[k] == y;
            if k < p {
                assert(t[k] == y);
            } else {
                assert(t[k + 1] == y);
            }
        }
        if y == x {
            assert(t[p] == y);
        }
    }
    assert(t.to_set() =~= s.to_set().insert(x));
}

/// Whether `x` is among `v`.
fn has_position(v: &Vec<usize>, x: usize) -> (r: bool)
    ensures
        r == v@.contains(x),
{
    let mut i: usize = 0;
    while i < v.len()
        invariant
            i <= v@.len(),
            forall|k: int| 0 <= k < i ==> v@[k] != x,
        decreases v.len() - i,
    {
        if v[i] == x {
            assert(v@[i as int] == x);
            return true;
        }
        i = i + 1;
    }
    false
}

/// The distinct elements of `v` in ascending order.
fn sorted_distinct(v: &Vec<usize>) -> (r: Vec<usize>)
    ensures
        increasing(r@),
        r@.to_set() == v@.to_set(),
{
    let mut r: Vec<usize> = Vec::new();
    let mut n: usize = 0;
    while n < v.len()
        invariant
            n <= v@.len(),
            increasing(r@),
            r@.to_set() == v@.take(n as int).to_set(),
        decreases v.len() - n,
    {
        let x = v[n];
        let mut p: usize = 0;
        while p < r.len() && r[p] < x
            invariant
                p <= r@.len(),
                increasing(r@),
                forall|j: int| 0 <= j < p ==> r@[j] < x,
            decreases r.len() - p,
        {
            p = p + 1;
        }
        let ghost before = r@;
        proof {
            assert(v@.take(n + 1) =~= v@.take(n as int).push(x));
            assert(v@.take(n + 1).to_set() =~= v@.take(n as int).to_set().insert(x)) by {
                assert forall|y: usize| #[trigger] v@.take(n + 1).to_set().contains(y)
                    <==> v@.take(n as int).to_set().insert(x).contains(y) by {
                    let t = v@.take(n + 1);
                    let u = v@.take(n as int);
                    if t.contains(y) {
                        let k = choose|k: int| 0 <= k < t.len() && t[k] == y;
                        if k < u.len() {
                            assert(u[k] == y);
                        }
                    }
                    if u.contains(y) {
                        let k = choose|k: int| 0 <= k < u.len() && u[k] == y;
                        assert(t[k] == y);
                    }
                    if y == x {
                        assert(t[n as int] == y);
                    }
                }
            }
        }
        if !(p < r.len() && r[p] == x) {
            r.insert(p, x);
            proof {
                lemma_insert_into_increasing(before, p as int, x);
            }
        } else {
            proof {
                assert(before.to_set().contains(x)) by {
                    assert(before[p as int] == x);
                }
                assert(before.to_set().insert(x) =~= before.to_set());
            }
        }
        n = n + 1;
    }
    assert(v@.take(v@.len() as int) =~= v@);
    r
}

} // verus!
