use sshcli::cli_profiles::Authentication;
use sshcli::tui::{handle_create_key, key_bytes, submit_create_form, Action, App, CreateForm, KeyCode};

fn form() -> CreateForm {
    CreateForm::with_key_options(vec!["/home/u/.ssh/id_ed25519".into(), "/home/u/.ssh/id_rsa".into()])
}

fn type_text(f: &mut CreateForm, text: &str) {
    for c in text.chars() {
        assert!(handle_create_key(f, KeyCode::Char(c), true, false).is_none());
    }
}

#[test]
fn fresh_app_shows_the_placeholder() {
    let app = App::default();
    assert!(!app.should_quit);
    assert_eq!(app.selected_profile, 0);
    assert_eq!(app.profiles, vec!["No saved connections"]);
    assert_eq!(app.status, "No profiles yet. Press n to add one in a future release.");
}

#[test]
fn selection_wraps_both_ways() {
    let mut app = App::default();
    app.profiles = vec!["a".into(), "b".into(), "c".into()];
    app.select_previous();
    assert_eq!(app.selected_profile, 2);
    app.select_next();
    assert_eq!(app.selected_profile, 0);
    app.select_next();
    app.select_next();
    app.select_next();
    assert_eq!(app.selected_profile, 0);
    app.quit();
    assert!(app.should_quit);
}

#[test]
fn empty_list_keeps_selection() {
    let mut app = App::default();
    app.profiles.clear();
    app.select_next();
    app.select_previous();
    assert_eq!(app.selected_profile, 0);
}

#[test]
fn key_bytes_for_special_and_control_keys() {
    assert_eq!(key_bytes(KeyCode::Char('c'), true), Some(vec![3]));
    assert_eq!(key_bytes(KeyCode::Char('C'), true), Some(vec![3]));
    assert_eq!(key_bytes(KeyCode::Char('é'), false), Some("é".as_bytes().to_vec()));
    assert_eq!(key_bytes(KeyCode::Enter, false), Some(vec![b'\r']));
    assert_eq!(key_bytes(KeyCode::Up, false), Some(b"\x1b[A".to_vec()));
    assert_eq!(key_bytes(KeyCode::Delete, false), Some(b"\x1b[3~".to_vec()));
    assert_eq!(key_bytes(KeyCode::PageDown, true), Some(b"\x1b[6~".to_vec()));
    assert_eq!(key_bytes(KeyCode::BackTab, false), None);
}

#[test]
fn new_form_defaults() {
    let f = form();
    assert_eq!(f.values, vec!["", "", "22", "", "", "password", "no"]);
    assert_eq!(f.field, 0);
    assert_eq!(f.error, "");
}

#[test]
fn form_focus_moves_and_wraps() {
    let mut f = form();
    handle_create_key(&mut f, KeyCode::Up, true, false);
    assert_eq!(f.field, 6);
    handle_create_key(&mut f, KeyCode::Tab, true, false);
    assert_eq!(f.field, 0);
    handle_create_key(&mut f, KeyCode::Down, false, false);
    assert_eq!(f.field, 0);
}

#[test]
fn form_cycles_choices_with_space() {
    let mut f = form();
    f.field = 5;
    handle_create_key(&mut f, KeyCode::Char(' '), true, false);
    assert_eq!(f.values[5], "private-key");
    handle_create_key(&mut f, KeyCode::Char(' '), true, false);
    assert_eq!(f.values[5], "none");
    handle_create_key(&mut f, KeyCode::Char(' '), true, false);
    assert_eq!(f.values[5], "password");
    f.field = 6;
    handle_create_key(&mut f, KeyCode::Char(' '), true, false);
    assert_eq!(f.values[6], "yes");
    f.field = 4;
    handle_create_key(&mut f, KeyCode::Char(' '), true, false);
    assert_eq!(f.values[4], "/home/u/.ssh/id_ed25519");
    handle_create_key(&mut f, KeyCode::Char(' '), true, false);
    assert_eq!(f.values[4], "/home/u/.ssh/id_rsa");
    handle_create_key(&mut f, KeyCode::Char(' '), true, false);
    assert_eq!(f.values[4], "/home/u/.ssh/id_ed25519");
}

#[test]
fn form_without_keys_reports_it() {
    let mut f = CreateForm::with_key_options(vec![]);
    f.field = 4;
    handle_create_key(&mut f, KeyCode::Char(' '), true, false);
    assert_eq!(f.error, "No SSH keys found in ~/.ssh.");
    assert_eq!(f.values[4], "");
}

#[test]
fn form_edits_text_fields() {
    let mut f = form();
    type_text(&mut f, "prod x");
    handle_create_key(&mut f, KeyCode::Backspace, true, false);
    handle_create_key(&mut f, KeyCode::Backspace, true, false);
    assert_eq!(f.values[0], "prod");
}

#[test]
fn form_submission_rules() {
    let mut f = form();
    assert!(handle_create_key(&mut f, KeyCode::Enter, true, false).is_none());
    assert_eq!(f.error, "Name, host and user are required.");
    f.values[0] = "prod".into();
    f.values[1] = "example.com".into();
    f.values[3] = "deploy".into();
    f.values[2] = "99999".into();
    assert!(submit_create_form(&mut f, false).is_none());
    assert_eq!(f.error, "Port must be a number between 1 and 65535.");
    f.values[2] = "2222".into();
    f.values[5] = "private-key".into();
    assert!(submit_create_form(&mut f, false).is_none());
    assert_eq!(f.error, "Identity file is required for private-key auth.");
    f.values[4] = "/nope".into();
    assert!(submit_create_form(&mut f, false).is_none());
    assert_eq!(f.error, "Selected identity file does not exist.");
    match submit_create_form(&mut f, true) {
        Some(Action::Create(d)) => {
            assert_eq!(d.name, "prod");
            assert_eq!(d.port, "2222");
            assert_eq!(d.identity_file, "/nope");
            assert_eq!(d.authentication, Authentication::PrivateKey);
            assert!(!d.accept_unknown_host_key);
        }
        None => panic!("valid form"),
    }
}
