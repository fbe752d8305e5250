//! The exchange list: a tree of exchanges, each expandable to the
//! bindings that leave it, shown as one flat list with a cursor, and a
//! name filter.

use vstd::prelude::*;
use crate::keys::Key;
use crate::model::BindingInfo;
use crate::text::{owned, same_text};

verus! {

/// A row of the exchange tree.
#[derive(Debug)]
pub enum TopologyItem {
    Exchange(String),
    Binding(BindingInfo),
}

/// What the exchange list handler reads.
#[derive(Debug, Clone, Copy, PartialEq, Eq, Structural)]
pub struct ExchangeListState {
    pub filter_active: bool,
    pub filter_focused: bool,
    pub filter_empty: bool,
    /// The cursor's row.
    pub selected: usize,
    /// Whether a broker is connected.
    pub connected: bool,
}

/// What a key on the exchange list asks for.
#[derive(Debug)]
pub enum ExchangeAction {
    Nothing,
    Quit,
    ShowHelp,
    /// Put the cursor on this row.
    Select(usize),
    /// Expand the exchange, or fold it when it is expanded.
    ToggleExpanded(String),
    /// Open the filter and type into it.
    OpenFilter,
    /// Give the filter input the focus again.
    FocusFilter,
    /// Type into the filter, or delete its last character; the exchanges
    /// are filtered anew and the cursor goes to the first row.
    FilterPush(char),
    FilterPop,
    /// Leave the filter input, keeping the filter.
    LeaveFilter,
    /// Empty the filter (the input stays open), filtering anew.
    ClearFilter,
    /// Close the empty filter.
    CloseFilter,
    /// Empty and close the filter, filtering anew.
    DropFilter,
    /// Ask for a queue and a routing key to bind to this exchange.
    AddBinding(String),
    /// Delete this binding (source, destination, properties key).
    DeleteBinding { source: String, destination: String, properties_key: String },
    /// Show this exchange's details.
    ExchangeInfo(String),
    /// Back to the queue list.
    Back,
}

pub enum ExchangeEffect {
    Nothing,
    Quit,
    ShowHelp,
    Select(usize),
    ToggleExpanded(Seq<char>),
    OpenFilter,
    FocusFilter,
    FilterPush(char),
    FilterPop,
    LeaveFilter,
    ClearFilter,
    CloseFilter,
    DropFilter,
    AddBinding(Seq<char>),
    DeleteBinding(Seq<char>, Seq<char>, Seq<char>),
    ExchangeInfo(Seq<char>),
    Back,
}

impl View for ExchangeAction {
    type V = ExchangeEffect;

    open spec fn view(&self) -> ExchangeEffect {
        match self {
            ExchangeAction::Nothing => ExchangeEffect::Nothing,
            ExchangeAction::Quit => ExchangeEffect::Quit,
            ExchangeAction::ShowHelp => ExchangeEffect::ShowHelp,
            ExchangeAction::Select(i) => ExchangeEffect::Select(*i),
            ExchangeAction::ToggleExpanded(n) => ExchangeEffect::ToggleExpanded(n@),
            ExchangeAction::OpenFilter => ExchangeEffect::OpenFilter,
            ExchangeAction::FocusFilter => ExchangeEffect::FocusFilter,
            ExchangeAction::FilterPush(c) => ExchangeEffect::FilterPush(*c),
            ExchangeAction::FilterPop => ExchangeEffect::FilterPop,
            ExchangeAction::LeaveFilter => ExchangeEffect::LeaveFilter,
            ExchangeAction::ClearFilter => ExchangeEffect::ClearFilter,
            ExchangeAction::CloseFilter => ExchangeEffect::CloseFilter,
            ExchangeAction::DropFilter => ExchangeEffect::DropFilter,
            ExchangeAction::AddBinding(n) => ExchangeEffect::AddBinding(n@),
            ExchangeAction::DeleteBinding { source, destination, properties_key } =>
                ExchangeEffect::DeleteBinding(source@, destination@, properties_key@),
            ExchangeAction::ExchangeInfo(n) => ExchangeEffect::ExchangeInfo(n@),
            ExchangeAction::Back => ExchangeEffect::Back,
        }
    }
}

/// The exchange a row belongs to: the exchange itself, or the source of
/// the binding.
pub open spec fn row_exchange(item: TopologyItem) -> Seq<char> {
    match item {
        TopologyItem::Exchange(n) => n@,
        TopologyItem::Binding(b) => b.source@,
    }
}

/// What a key does while the filter input has the focus.
pub open spec fn exchange_filter_spec(k: Key, s: ExchangeListState) -> ExchangeEffect {
    match k {
        Key::Char(c) => ExchangeEffect::FilterPush(c),
        Key::Backspace => ExchangeEffect::FilterPop,
        Key::Tab | Key::Down | Key::Enter => ExchangeEffect::LeaveFilter,
        Key::Esc => if s.filter_empty {
            ExchangeEffect::CloseFilter
        } else {
            ExchangeEffect::ClearFilter
        },
        _ => ExchangeEffect::Nothing,
    }
}

/// What a key does on the exchange list (no popup up), with the tree shown
/// as the rows `rows`.
pub open spec fn exchange_list_spec(k: Key, s: ExchangeListState, rows: Seq<TopologyItem>) -> ExchangeEffect {
    let here = if s.selected < rows.len() {
        Some(rows[s.selected as int])
    } else {
        None
    };
    if s.filter_active && s.filter_focused {
        exchange_filter_spec(k, s)
    } else if s.filter_active && k == Key::BackTab {
        ExchangeEffect::FocusFilter
    } else {
        match k {
            Key::Char('q') => ExchangeEffect::Quit,
            Key::Char('?') => ExchangeEffect::ShowHelp,
            Key::Char('j') | Key::Down => if rows.len() > 0 && s.selected + 1 < rows.len() {
                ExchangeEffect::Select((s.selected + 1) as usize)
            } else {
                ExchangeEffect::Nothing
            },
            Key::Char('k') | Key::Up => ExchangeEffect::Select(
                if s.selected > 0 {
                    (s.selected - 1) as usize
                } else {
                    0
                },
            ),
            Key::Enter => match here {
                Some(TopologyItem::Exchange(n)) => ExchangeEffect::ToggleExpanded(n@),
                _ => ExchangeEffect::Nothing,
            },
            Key::Char('/') => ExchangeEffect::OpenFilter,
            Key::Char('b') => match here {
                Some(item) => ExchangeEffect::AddBinding(row_exchange(item)),
                None => ExchangeEffect::Nothing,
            },
            Key::Char('d') => match here {
                Some(TopologyItem::Binding(b)) => if s.connected {
                    ExchangeEffect::DeleteBinding(b.source@, b.destination@, b.properties_key@)
                } else {
                    ExchangeEffect::Nothing
                },
                _ => ExchangeEffect::Nothing,
            },
            Key::Char('i') => match here {
                Some(TopologyItem::Exchange(n)) => ExchangeEffect::ExchangeInfo(n@),
                _ => ExchangeEffect::Nothing,
            },
            Key::Esc => if s.filter_active {
                if s.filter_focused {
                    ExchangeEffect::LeaveFilter
                } else {
                    ExchangeEffect::DropFilter
                }
            } else {
                ExchangeEffect::Back
            },
            _ => ExchangeEffect::Nothing,
        }
    }
}

fn exchange_filter_key(k: Key, s: &ExchangeListState) -> (r: ExchangeAction)
    ensures
        r@ == exchange_filter_spec(k, *s),
{
    match k {
        Key::Char(c) => ExchangeAction::FilterPush(c),
        Key::Backspace => ExchangeAction::FilterPop,
        Key::Tab | Key::Down | Key::Enter => ExchangeAction::LeaveFilter,
        Key::Esc => if s.filter_empty {
            ExchangeAction::CloseFilter
        } else {
            ExchangeAction::ClearFilter
        },
        _ => ExchangeAction::Nothing,
    }
}

/// The action a key asks for on the exchange list (no popup up).
pub fn handle_exchange_list_key(k: Key, s: &ExchangeListState, rows: &Vec<TopologyItem>) -> (r:
    ExchangeAction)
    ensures
        r@ == exchange_list_spec(k, *s, rows@),
{
    if s.filter_active && s.filter_focused {
        return exchange_filter_key(k, s);
    }
    if s.filter_active && k == Key::BackTab {
        return ExchangeAction::FocusFilter;
    }
    let n = rows.len();
    match k {
        Key::Char('q') => ExchangeAction::Quit,
        Key::Char('?') => ExchangeAction::ShowHelp,
        Key::Char('j') | Key::Down => if n > 0 && s.selected < n - 1 {
            ExchangeAction::Select(s.selected + 1)
        } else {
            ExchangeAction::Nothing
        },
        Key::Char('k') | Key::Up => ExchangeAction::Select(
            if s.selected > 0 {
                s.selected - 1
            } else {
                0
            },
        ),
        Key::Enter => if s.selected < n {
            match &rows[s.selected] {
                TopologyItem::Exchange(name) => ExchangeAction::ToggleExpanded(owned(name.as_str())),
                _ => ExchangeAction::Nothing,
            }
        } else {
            ExchangeAction::Nothing
        },
        Key::Char('/') => ExchangeAction::OpenFilter,
        Key::Char('b') => if s.selected < n {
            match &rows[s.selected] {
                TopologyItem::Exchange(name) => ExchangeAction::AddBinding(owned(name.as_str())),
                TopologyItem::Binding(b) => ExchangeAction::AddBinding(owned(b.source.as_str())),
            }
        } else {
            ExchangeAction::Nothing
        },
        Key::Char('d') => if s.selected < n {
            match &rows[s.selected] {
                TopologyItem::Binding(b) => if s.connected {
                    ExchangeAction::DeleteBinding {
                        source: owned(b.source.as_str()),
                        destination: owned(b.destination.as_str()),
                        properties_key: owned(b.properties_key.as_str()),
                    }
                } else {
                    ExchangeAction::Nothing
                },
                _ => ExchangeAction::Nothing,
            }
        } else {
            ExchangeAction::Nothing
        },
        Key::Char('i') => if s.selected < n {
            match &rows[s.selected] {
                TopologyItem::Exchange(name) => ExchangeAction::ExchangeInfo(owned(name.as_str())),
                _ => ExchangeAction::Nothing,
            }
        } else {
            ExchangeAction::Nothing
        },
        Key::Esc => if s.filter_active {
            if s.filter_focused {
                ExchangeAction::LeaveFilter
            } else {
                ExchangeAction::DropFilter
            }
        } else {
            ExchangeAction::Back
        },
        _ => ExchangeAction::Nothing,
    }
}

// ---------------------------------------------------------------------------
// The expanded exchanges
// ---------------------------------------------------------------------------

/// The names in `v`, as a set.
pub open spec fn name_set(v: Seq<String>) -> Set<Seq<char>> {
    v.map_values(|s: String| s@).to_set()
}

/// No name occurs twice.
pub open spec fn distinct_names(v: Seq<String>) -> bool {
    forall|i: int, j: int| 0 <= i < j < v.len() ==> v[i]@ != v[j]@
}

/// The expanded set after toggling `name`: folded when it was expanded,
/// expanded when not.
pub open spec fn toggled_name(set: Set<Seq<char>>, name: Seq<char>) -> Set<Seq<char>> {
    if set.contains(name) {
        set.remove(name)
    } else {
        set.insert(name)
    }
}

/// Expands the exchange `name`, or folds it when it is expanded.
pub fn toggle_expanded(expanded: &mut Vec<String>, name: &str)
    requires
        distinct_names(old(expanded)@),
    ensures
        distinct_names(final(expanded)@),
        name_set(final(expanded)@) == toggled_name(name_set(old(expanded)@), name@),
{
    let ghost before = expanded@;
    let mut i: usize = 0;
    while i < expanded.len()
        invariant
            expanded@ == before,
            before == old(expanded)@,
            distinct_names(before),
            i <= before.len(),
            forall|j: int| 0 <= j < i ==> before[j]@ != name@,
        decreases expanded.len() - i,
    {
        if same_text(expanded[i].as_str(), name) {
            let _ = expanded.remove(i);
            proof {
                let views = before.map_values(|s: String| s@);
                let after = expanded@.map_values(|s: String| s@);
                assert(views[i as int] == name@);
                assert forall|x: Seq<char>| after.contains(x) <==> views.contains(x) && x != name@ by {
                    if after.contains(x) {
                        let j = choose|j: int| 0 <= j < after.len() && after[j] == x;
                        if j < i {
                            assert(views[j] == x);
                        } else {
                            assert(views[j + 1] == x);
                            assert(before[j + 1]@ != before[i as int]@);
                        }
                    }
                    if views.contains(x) && x != name@ {
                        let j = choose|j: int| 0 <= j < views.len() && views[j] == x;
                        if j < i {
                            assert(after[j] == x);
                        } else {
                            assert(j != i);
                            assert(after[j - 1] == x);
                        }
                    }
                }
                assert(name_set(expanded@) =~= name_set(before).remove(name@));
                assert(name_set(before).contains(name@));
                assert forall|a: int, b: int| 0 <= a < b < expanded@.len() implies expanded@[a]@
                    != expanded@[b]@ by {
                    let a0 = if a < i { a } else { a + 1 };
                    let b0 = if b < i { b } else { b + 1 };
                    assert(expanded@[a] == before[a0]);
                    assert(expanded@[b] == before[b0]);
                }
                assert(name_set(expanded@) == toggled_name(name_set(before), name@));
            }
            return;
        }
        i = i + 1;
    }
    expanded.push(owned(name));
    proof {
        let views = before.map_values(|s: String| s@);
        let after = expanded@.map_values(|s: String| s@);
        assert(after =~= views.push(name@));
        assert(!name_set(before).contains(name@)) by {
            if views.contains(name@) {
                let j = choose|j: int| 0 <= j < views.len() && views[j] == name@;
                assert(before[j]@ == name@);
            }
        }
        assert forall|x: Seq<char>| after.contains(x) <==> views.contains(x) || x == name@ by {
            if after.contains(x) {
                let j = choose|j: int| 0 <= j < after.len() && after[j] == x;
                if j < views.len() {
                    assert(views[j] == x);
                }
            }
            if views.contains(x) {
                let j = choose|j: int| 0 <= j < views.len() && views[j] == x;
                assert(after[j] == x);
            }
            if x == name@ {
                assert(after[views.len() as int] == x);
            }
        }
        assert(name_set(expanded@) =~= name_set(before).insert(name@));
        assert forall|a: int, b: int| 0 <= a < b < expanded@.len() implies expanded@[a]@
            != expanded@[b]@ by {
            if b < before.len() {
                assert(expanded@[a] == before[a]);
                assert(expanded@[b] == before[b]);
            } else {
                assert(expanded@[a] == before[a]);
            }
        }
    }
}

/// Toggling an exchange twice gives back the expanded set.
pub proof fn lemma_toggle_expanded_twice(set: Set<Seq<char>>, name: Seq<char>)
    ensures
        toggled_name(toggled_name(set, name), name) == set,
{
    if set.contains(name) {
        assert(set.remove(name).insert(name) =~= set);
    } else {
        assert(set.insert(name).remove(name) =~= set);
    }
}

} // verus!
