//! The profile screen's keys: picking a profile from the list (followed by
//! a row to add one and a row to pick the theme), the add/edit form, and
//! the delete question.

use vstd::prelude::*;
use crate::config::{Config, Profile};
use crate::forms::{erased_from, profile_from_form, typed_into, ProfileForm};
use crate::keys::{confirms, is_confirmation, Key};
use crate::order::strictly_sorted;
use crate::session::{cursor_down, cursor_down_spec, cursor_up, cursor_up_spec, ProfileMode};
use crate::text::{owned, parse_unsigned, same_text};

verus! {

// ---------------------------------------------------------------------------
// The list
// ---------------------------------------------------------------------------

/// What a key on the profile list asks for.
#[derive(Debug, Clone, Copy, PartialEq, Eq, Structural)]
pub enum SelectStep {
    Nothing,
    Quit,
    MoveCursor(Option<usize>),
    /// Connect with the profile at this row.
    Connect(usize),
    /// Open an empty form for a new profile.
    Add,
    /// Open the theme picker on the current theme.
    PickTheme,
    /// Open the form on the profile at this row.
    Edit(usize),
    /// Ask whether to delete the profile under the cursor.
    AskDelete,
}

/// What a key does on the list of `profiles` profiles (followed by the
/// "add" row and the "theme" row), with the cursor at `cursor`.
pub open spec fn profile_select_spec(k: Key, cursor: Option<usize>, profiles: usize) -> SelectStep {
    let total = profiles + 2;
    let sel: int = match cursor {
        Some(c) => c as int,
        None => 0,
    };
    match k {
        Key::Char('q') => SelectStep::Quit,
        Key::Char('j') | Key::Down => SelectStep::MoveCursor(cursor_down_spec(cursor, total as usize)),
        Key::Char('k') | Key::Up => SelectStep::MoveCursor(cursor_up_spec(cursor)),
        Key::Enter => if sel < profiles {
            SelectStep::Connect(sel as usize)
        } else if sel == profiles {
            SelectStep::Add
        } else if sel == profiles + 1 {
            SelectStep::PickTheme
        } else {
            SelectStep::Nothing
        },
        Key::Char('a') => SelectStep::Add,
        Key::Char('e') => if sel < profiles {
            SelectStep::Edit(sel as usize)
        } else {
            SelectStep::Nothing
        },
        Key::Char('d') => if sel < profiles {
            SelectStep::AskDelete
        } else {
            SelectStep::Nothing
        },
        Key::Char('t') => SelectStep::PickTheme,
        _ => SelectStep::Nothing,
    }
}

pub fn handle_profile_select_key(k: Key, cursor: Option<usize>, profiles: usize) -> (r: SelectStep)
    requires
        profiles + 2 <= usize::MAX,
    ensures
        r == profile_select_spec(k, cursor, profiles),
{
    let sel: usize = match cursor {
        Some(c) => c,
        None => 0,
    };
    match k {
        Key::Char('q') => SelectStep::Quit,
        Key::Char('j') | Key::Down => SelectStep::MoveCursor(cursor_down(cursor, profiles + 2)),
        Key::Char('k') | Key::Up => SelectStep::MoveCursor(cursor_up(cursor)),
        Key::Enter => if sel < profiles {
            SelectStep::Connect(sel)
        } else if sel == profiles {
            SelectStep::Add
        } else if sel == profiles + 1 {
            SelectStep::PickTheme
        } else {
            SelectStep::Nothing
        },
        Key::Char('a') => SelectStep::Add,
        Key::Char('e') => if sel < profiles {
            SelectStep::Edit(sel)
        } else {
            SelectStep::Nothing
        },
        Key::Char('d') => if sel < profiles {
            SelectStep::AskDelete
        } else {
            SelectStep::Nothing
        },
        Key::Char('t') => SelectStep::PickTheme,
        _ => SelectStep::Nothing,
    }
}

// ---------------------------------------------------------------------------
// The form
// ---------------------------------------------------------------------------

/// What a key in the profile form asks for.
pub enum FormStep {
    Nothing,
    /// Back to the list.
    Back,
    /// Pick the backend type, with the picker on this row.
    PickBackend(usize),
    /// The profile was stored under this name: save the configuration and
    /// connect with it.
    Saved(String),
}

/// The row of the backend type picker for `t` (the first for an unknown
/// type).
pub open spec fn backend_row(t: Seq<char>) -> usize {
    if t == "rabbitmq"@ {
        0
    } else if t == "kafka"@ {
        1
    } else if t == "mqtt"@ {
        2
    } else {
        0
    }
}

fn backend_row_of(t: &str) -> (r: usize)
    ensures
        r == backend_row(t@),
{
    if same_text(t, "rabbitmq") {
        0
    } else if same_text(t, "kafka") {
        1
    } else if same_text(t, "mqtt") {
        2
    } else {
        0
    }
}

/// The name a form edits, when it edits a profile that it renames.
pub open spec fn renamed_from(mode: ProfileMode, name: Seq<char>) -> Option<Seq<char>> {
    match mode {
        ProfileMode::Edit(old) => if old@ != name {
            Some(old@)
        } else {
            None
        },
        _ => None,
    }
}

/// Everything but the profiles and the default profile stays as it was.
pub open spec fn same_settings(a: Config, b: Config) -> bool {
    &&& a.theme == b.theme
    &&& a.filters == b.filters
    &&& a.templates == b.templates
    &&& a.webhook_alerts == b.webhook_alerts
}

/// The default profile after deleting the profile `name`.
pub open spec fn default_after_delete(d: Option<String>, name: Seq<char>) -> Option<String> {
    match d {
        Some(x) => if x@ == name {
            None
        } else {
            Some(x)
        },
        None => None,
    }
}

/// What a key does in the profile form: `Tab` and the arrows move between
/// the eight fields, typing and `Backspace` edit the focused one, `Enter`
/// opens the type picker (on the type field), toggles TLS (on the TLS
/// field) or stores the profile, replacing the edited one when it was
/// renamed.
pub fn handle_profile_form_key(form: &mut ProfileForm, mode: &ProfileMode, k: Key, config: &mut Config) -> (r:
    FormStep)
    requires
        old(form).focused_field < 8,
    ensures
        final(form).focused_field < 8,
        same_settings(*old(config), *final(config)),
        !(r is Saved) ==> final(config).profiles@ == old(config).profiles@
            && final(config).default_profile == old(config).default_profile,
        match k {
            Key::Esc => r is Back && final(form).error@ == Seq::<char>::empty() && final(form).name@
                == old(form).name@ && final(form).focused_field == old(form).focused_field,
            Key::Tab | Key::Down => r is Nothing && final(form).focused_field == (old(
                form,
            ).focused_field + 1) % 8 && final(form).name@ == old(form).name@,
            Key::BackTab | Key::Up => r is Nothing && final(form).focused_field == (old(
                form,
            ).focused_field + 7) % 8 && final(form).name@ == old(form).name@,
            Key::Backspace => r is Nothing && erased_from(*old(form), *final(form)),
            Key::Char(c) => r is Nothing && typed_into(*old(form), *final(form), c),
            Key::Enter => if old(form).focused_field == 0 {
                r == FormStep::PickBackend(backend_row(old(form).profile_type@))
                    && *final(form) == *old(form)
            } else if old(form).focused_field == 7 {
                r is Nothing && final(form).tls == !old(form).tls && final(form).name@ == old(
                    form,
                ).name@
            } else {
                match r {
                    FormStep::Saved(n) => n@ == old(form).name@ && n@.len() > 0 && parse_unsigned(
                        old(form).port@,
                        65535,
                    ) is Some && exists|p: Profile|
                        profile_from_form(*old(form), p) && final(config).profiles@ == (match renamed_from(
                            *mode,
                            n@,
                        ) {
                            Some(o) => old(config).profiles@.remove(o),
                            None => old(config).profiles@,
                        }).insert(n@, p) && final(config).default_profile == (match renamed_from(
                            *mode,
                            n@,
                        ) {
                            Some(o) => default_after_delete(old(config).default_profile, o),
                            None => old(config).default_profile,
                        }),
                    FormStep::Nothing => if old(form).name@.len() == 0 {
                        final(form).error@ == "Name is required"@
                    } else {
                        parse_unsigned(old(form).port@, 65535) is None && final(form).error@
                            == "Invalid port number"@
                    },
                    _ => false,
                }
            },
            _ => r is Nothing,
        },
{
    match k {
        Key::Esc => {
            form.error = String::new();
            FormStep::Back
        },
        Key::Tab | Key::Down => {
            form.focused_field = (form.focused_field + 1) % 8;
            FormStep::Nothing
        },
        Key::BackTab | Key::Up => {
            form.focused_field = (form.focused_field + 7) % 8;
            FormStep::Nothing
        },
        Key::Backspace => {
            form.pop_char();
            FormStep::Nothing
        },
        Key::Char(c) => {
            form.push_char(c);
            FormStep::Nothing
        },
        Key::Enter => {
            if form.focused_field == 0 {
                return FormStep::PickBackend(backend_row_of(form.profile_type.as_str()));
            }
            if form.focused_field == 7 {
                form.tls = !form.tls;
                return FormStep::Nothing;
            }
            match form.to_profile() {
                Ok(profile) => {
                    let name = owned(form.name.as_str());
                    if let ProfileMode::Edit(old_name) = mode {
                        if !same_text(old_name.as_str(), name.as_str()) {
                            config.delete_profile(old_name.as_str());
                        }
                    }
                    config.add_profile(owned(name.as_str()), profile);
                    FormStep::Saved(name)
                },
                Err(e) => {
                    form.error = e;
                    FormStep::Nothing
                },
            }
        },
        _ => FormStep::Nothing,
    }
}

// ---------------------------------------------------------------------------
// Deleting
// ---------------------------------------------------------------------------

/// `names` lists the profiles of `m` in ascending order.
pub open spec fn lists_profiles(m: Map<Seq<char>, Profile>, names: Seq<Seq<char>>) -> bool {
    &&& strictly_sorted(names)
    &&& forall|i: int| 0 <= i < names.len() ==> m.contains_key(#[trigger] names[i])
    &&& forall|k: Seq<char>| #[trigger] m.contains_key(k) ==> exists|i: int| 0 <= i < names.len() && names[i] == k
}

/// The answer to "delete this profile?": `y` deletes the profile at the
/// cursor's row (the first without a cursor) when it is a profile; any key
/// returns to the list. Returns whether a profile was deleted.
pub fn handle_profile_delete_key(k: Key, cursor: Option<usize>, config: &mut Config) -> (r: bool)
    ensures
        same_settings(*old(config), *final(config)),
        r ==> confirms(k) && exists|names: Seq<Seq<char>>|
            #![trigger lists_profiles(old(config).profiles@, names)]
            {
                let sel: int = match cursor {
                    Some(c) => c as int,
                    None => 0,
                };
                &&& lists_profiles(old(config).profiles@, names)
                &&& sel < names.len()
                &&& final(config).profiles@ == old(config).profiles@.remove(names[sel])
                &&& final(config).default_profile == default_after_delete(
                    old(config).default_profile,
                    names[sel],
                )
            },
        !r ==> final(config).profiles@ == old(config).profiles@ && final(config).default_profile
            == old(config).default_profile,
        !r && confirms(k) ==> exists|names: Seq<Seq<char>>|
            #[trigger] lists_profiles(old(config).profiles@, names) && match cursor {
                Some(c) => c >= names.len(),
                None => names.len() == 0,
            },
{
    if !is_confirmation(k) {
        return false;
    }
    let names = config.profile_names();
    let ghost views = names@.map_values(|s: String| s@);
    proof {
        assert forall|i: int| 0 <= i < views.len() implies config.profiles@.contains_key(#[trigger] views[i]) by {
            assert(views[i] == names@[i]@);
        }
        assert forall|key: Seq<char>| #[trigger] config.profiles@.contains_key(key) implies exists|i: int|
            0 <= i < views.len() && views[i] == key by {
            let i = choose|i: int| 0 <= i < names@.len() && names@[i]@ == key;
            assert(views[i] == key);
        }
        assert(lists_profiles(config.profiles@, views));
    }
    let sel: usize = match cursor {
        Some(c) => c,
        None => 0,
    };
    if sel < names.len() {
        assert(views[sel as int] == names@[sel as int]@);
        config.delete_profile(names[sel].as_str());
        true
    } else {
        false
    }
}

/// What a key does on the profile screen when no popup is up: which of
/// the three handlers takes it.
#[derive(Debug, Clone, Copy, PartialEq, Eq, Structural)]
pub enum ProfileKeys {
    List,
    Form,
    DeleteQuestion,
}

pub open spec fn profile_keys_spec(mode: ProfileMode) -> ProfileKeys {
    match mode {
        ProfileMode::Select => ProfileKeys::List,
        ProfileMode::Add | ProfileMode::Edit(_) => ProfileKeys::Form,
        ProfileMode::ConfirmDelete => ProfileKeys::DeleteQuestion,
    }
}

/// The handler for the screen's mode.
pub fn handle_profile_key(mode: &ProfileMode) -> (r: ProfileKeys)
    ensures
        r == profile_keys_spec(*mode),
{
    match mode {
        ProfileMode::Select => ProfileKeys::List,
        ProfileMode::Add | ProfileMode::Edit(_) => ProfileKeys::Form,
        ProfileMode::ConfirmDelete => ProfileKeys::DeleteQuestion,
    }
}

} // verus!
