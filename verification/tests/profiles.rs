use queuepeek::config::{Config, Profile};
use queuepeek::forms::ProfileForm;
use queuepeek::keys::Key;
use queuepeek::profiles::{
    handle_profile_delete_key, handle_profile_form_key, handle_profile_key,
    handle_profile_select_key, FormStep, ProfileKeys, SelectStep,
};
use queuepeek::session::ProfileMode;

fn config_with(names: &[&str]) -> Config {
    let mut c = Config::default();
    for n in names {
        c.add_profile(n.to_string(), Profile::default());
    }
    c
}

#[test]
fn profile_list_rows() {
    // two profiles, then "add", then "theme"
    assert_eq!(handle_profile_select_key(Key::Enter, Some(1), 2), SelectStep::Connect(1));
    assert_eq!(handle_profile_select_key(Key::Enter, Some(2), 2), SelectStep::Add);
    assert_eq!(handle_profile_select_key(Key::Enter, Some(3), 2), SelectStep::PickTheme);
    assert_eq!(handle_profile_select_key(Key::Enter, Some(4), 2), SelectStep::Nothing);
    assert_eq!(handle_profile_select_key(Key::Down, Some(3), 2), SelectStep::MoveCursor(Some(3)));
    assert_eq!(handle_profile_select_key(Key::Down, None, 0), SelectStep::MoveCursor(Some(1)));
    assert_eq!(handle_profile_select_key(Key::Char('e'), None, 2), SelectStep::Edit(0));
    assert_eq!(handle_profile_select_key(Key::Char('d'), Some(2), 2), SelectStep::Nothing);
    assert_eq!(handle_profile_select_key(Key::Char('d'), Some(1), 2), SelectStep::AskDelete);
    assert_eq!(handle_profile_select_key(Key::Char('t'), None, 2), SelectStep::PickTheme);
    assert_eq!(handle_profile_select_key(Key::Char('q'), None, 2), SelectStep::Quit);
}

#[test]
fn profile_form_saves_and_renames() {
    let mut config = config_with(&["old"]);
    let mut form = ProfileForm::from_profile("old", &Profile::default());
    form.focused_field = 1;
    handle_profile_form_key(&mut form, &ProfileMode::Edit("old".to_string()), Key::Backspace, &mut config);
    handle_profile_form_key(&mut form, &ProfileMode::Edit("old".to_string()), Key::Char('x'), &mut config);
    assert_eq!(form.name, "olx");
    match handle_profile_form_key(&mut form, &ProfileMode::Edit("old".to_string()), Key::Enter, &mut config) {
        FormStep::Saved(n) => assert_eq!(n, "olx"),
        _ => panic!("expected the profile to be saved"),
    }
    assert_eq!(config.profile_names(), vec!["olx"]);
}

#[test]
fn profile_form_reports_errors_and_pickers() {
    let mut config = Config::default();
    let mut form = ProfileForm::default();
    form.focused_field = 1;
    assert!(matches!(
        handle_profile_form_key(&mut form, &ProfileMode::Add, Key::Enter, &mut config),
        FormStep::Nothing
    ));
    assert_eq!(form.error, "Name is required");
    form.focused_field = 0;
    form.profile_type = "kafka".to_string();
    assert!(matches!(
        handle_profile_form_key(&mut form, &ProfileMode::Add, Key::Enter, &mut config),
        FormStep::PickBackend(1)
    ));
    form.focused_field = 7;
    let tls = form.tls;
    handle_profile_form_key(&mut form, &ProfileMode::Add, Key::Enter, &mut config);
    assert_eq!(form.tls, !tls);
    handle_profile_form_key(&mut form, &ProfileMode::Add, Key::Tab, &mut config);
    assert_eq!(form.focused_field, 0);
    handle_profile_form_key(&mut form, &ProfileMode::Add, Key::Up, &mut config);
    assert_eq!(form.focused_field, 7);
    assert!(matches!(
        handle_profile_form_key(&mut form, &ProfileMode::Add, Key::Esc, &mut config),
        FormStep::Back
    ));
    assert!(form.error.is_empty());
    assert!(config.profile_names().is_empty());
}

#[test]
fn profile_delete_question() {
    let mut config = config_with(&["b", "a", "c"]);
    assert!(!handle_profile_delete_key(Key::Char('n'), Some(1), &mut config));
    assert_eq!(config.profile_names().len(), 3);
    assert!(handle_profile_delete_key(Key::Char('y'), Some(1), &mut config));
    assert_eq!(config.profile_names(), vec!["a", "c"]);
    // the "add" row is no profile
    assert!(!handle_profile_delete_key(Key::Char('Y'), Some(2), &mut config));
    assert_eq!(config.profile_names().len(), 2);
}

#[test]
fn profile_modes_pick_their_handler() {
    assert_eq!(handle_profile_key(&ProfileMode::Select), ProfileKeys::List);
    assert_eq!(handle_profile_key(&ProfileMode::Edit("x".to_string())), ProfileKeys::Form);
    assert_eq!(handle_profile_key(&ProfileMode::ConfirmDelete), ProfileKeys::DeleteQuestion);
}
