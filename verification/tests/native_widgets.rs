use sshcli::keys::{
    auth_method, default_identity_paths, expand_home_in, identity_files, AuthMethod,
    ClientHandler, DirEntry,
};
use sshcli::native_app::{
    classify_connect_error, close_confirmation, local_tab_label, shortcuts, tab_close_request,
    tab_id, tab_title, ConnectOutcome, SshForm, TabCounter, TabKind,
};
use sshcli::native_terminal::{
    drain_events, input_action, key_action, resolve_shell, scroll_for_match, SessionEvent,
    SessionState, TermAction, TermInput, TermKey,
};
use sshcli::prefs::{
    cursor_style_choices, font_families, scrollback_choices, CursorStyle, SettingsView, Theme,
};
use sshcli::ssh_options::{Authentication, ConnectionOptions, SshConnect};
use sshcli::terminal_grid::{cursor_cell, row_major_cells, TermDimensions};

#[test]
fn shortcuts_are_documented() {
    let s = shortcuts();
    assert_eq!(s.len(), 12);
    assert_eq!(s[0], ("Enter", "submit input (CR)"));
    assert_eq!(s[11], ("R (when closed)", "restart / reconnect session"));
}

#[test]
fn tab_titles_and_closing() {
    let running = TabKind::Session { id: 3, label: "Terminal 4".into(), closed: false };
    let closed = TabKind::Session { id: 5, label: "srv".into(), closed: true };
    assert_eq!(tab_title(&running), "Terminal 4");
    assert_eq!(tab_title(&closed), "srv (closed)");
    assert_eq!(tab_title(&TabKind::Sftp("p".into())), "SFTP · p");
    assert_eq!(tab_title(&TabKind::Tunnels("p".into())), "Túneles · p");
    assert_eq!(tab_title(&TabKind::Telemetry("p".into())), "Telemetría · p");
    assert_eq!(tab_title(&TabKind::Profiles), "Conexiones");
    assert_eq!(tab_id(&running), Some(3));
    assert_eq!(tab_id(&TabKind::About), None);
    assert_eq!(tab_close_request(&running), (false, Some(3)));
    assert_eq!(tab_close_request(&closed), (true, None));
    assert_eq!(tab_close_request(&TabKind::About), (true, None));
    assert_eq!(close_confirmation(Some(3), true, false, true), (None, Some(3)));
    assert_eq!(close_confirmation(Some(3), false, true, true), (None, None));
    assert_eq!(close_confirmation(Some(3), false, false, true), (Some(3), None));
    assert_eq!(close_confirmation(None, true, false, true), (None, None));
}

#[test]
fn local_tabs_are_numbered() {
    let mut c = TabCounter::new();
    let id = c.take();
    assert_eq!(id, 2);
    assert_eq!(local_tab_label(id), "Terminal 3");
    assert_eq!(c.next_id, 3);
}

#[test]
fn ssh_form_requests() {
    let mut f = SshForm::new();
    f.target = "   ".into();
    assert!(f.request().is_none());
    assert_eq!(f.error, Some("enter a host or profile name".into()));
    f.target = " alice@host ".into();
    f.password = "  ".into();
    f.adhoc = true;
    match f.request() {
        Some(SshConnect::Adhoc { target, password }) => {
            assert_eq!(target, "alice@host");
            assert_eq!(password, None);
        }
        _ => panic!("ad-hoc request"),
    }
    f.adhoc = false;
    f.password = " pw ".into();
    match f.request() {
        Some(SshConnect::Profile { name, password }) => {
            assert_eq!(name, "alice@host");
            assert_eq!(password, Some("pw".into()));
        }
        _ => panic!("profile request"),
    }
    f.after_connect(ConnectOutcome::Failed("boom".into()));
    assert_eq!(f.error, Some("boom".into()));
    f.after_connect(ConnectOutcome::HostKeyPending);
    assert_eq!(f.error, None);
    assert_eq!(f.target, " alice@host ");
    f.after_connect(ConnectOutcome::Connected);
    assert_eq!((f.target.as_str(), f.password.as_str()), ("", ""));
}

#[test]
fn connect_errors_are_sorted() {
    let q = classify_connect_error(
        "sshcli:host-key:{\"host\":\"h\",\"port\":22,\"key\":\"k\",\"changed\":false}".into(),
    )
    .unwrap();
    assert_eq!((q.host.as_str(), q.port), ("h", 22));
    assert_eq!(classify_connect_error("refused".into()).unwrap_err(), "refused");
}

#[test]
fn widget_keys() {
    assert_eq!(key_action(TermKey::C, true, true, 24), TermAction::CopySelection);
    assert_eq!(key_action(TermKey::V, true, true, 24), TermAction::Paste);
    assert_eq!(key_action(TermKey::F, true, true, 24), TermAction::OpenSearch);
    assert_eq!(key_action(TermKey::L, true, false, 24), TermAction::WriteAndEcho(b"\x1b[2J\x1b[H".to_vec()));
    assert_eq!(key_action(TermKey::C, true, false, 24), TermAction::Write(vec![3]));
    assert_eq!(key_action(TermKey::Tab, false, true, 24), TermAction::Write(b"\x1b[Z".to_vec()));
    assert_eq!(key_action(TermKey::Insert, false, false, 24), TermAction::Write(b"\x1b[2~".to_vec()));
    assert_eq!(key_action(TermKey::PageUp, false, false, 24), TermAction::Scroll(24));
    assert_eq!(key_action(TermKey::PageDown, false, false, 24), TermAction::Scroll(-24));
    assert_eq!(key_action(TermKey::Other, true, true, 24), TermAction::Ignore);
    assert_eq!(key_action(TermKey::L, true, true, 24), TermAction::Ignore);
}

#[test]
fn widget_inputs_need_focus() {
    assert_eq!(input_action(&TermInput::Text("hé".into()), true, false, 24), TermAction::Write("hé".as_bytes().to_vec()));
    assert_eq!(input_action(&TermInput::Text("x".into()), false, false, 24), TermAction::Ignore);
    assert_eq!(input_action(&TermInput::Copy, false, true, 24), TermAction::CopySelection);
    assert_eq!(input_action(&TermInput::Copy, true, false, 24), TermAction::Write(vec![3]));
    assert_eq!(input_action(&TermInput::Copy, false, false, 24), TermAction::Ignore);
    let key = TermInput::Key { key: TermKey::Enter, pressed: false, ctrl: false, shift: false };
    assert_eq!(input_action(&key, true, false, 24), TermAction::Ignore);
    assert_eq!(input_action(&TermInput::Paste("ls".into()), true, false, 24), TermAction::Write(b"ls".to_vec()));
}

#[test]
fn session_events_drain() {
    let mut state = SessionState::Running;
    let (out, closed) = drain_events(
        &mut state,
        vec![
            SessionEvent::Output(vec![1]),
            SessionEvent::SpawnFailed("x".into()),
            SessionEvent::Output(vec![2]),
        ],
    );
    assert_eq!(out, vec![vec![1], vec![2]]);
    assert!(!closed);
    assert_eq!(state, SessionState::Running);
    let (_, closed) = drain_events(&mut state, vec![SessionEvent::Closed, SessionEvent::Closed]);
    assert!(closed);
    assert_eq!(state, SessionState::Closed);
    assert_eq!(resolve_shell(None, Some("/bin/sh".into())), Some("/bin/sh".into()));
    assert_eq!(resolve_shell(Some("/bin/zsh".into()), Some("/bin/sh".into())), Some("/bin/zsh".into()));
}

#[test]
fn search_match_scrolling() {
    assert_eq!(scroll_for_match(-10, 0), Some(11));
    assert_eq!(scroll_for_match(-3, 5), None);
    assert_eq!(scroll_for_match(-8, 5), Some(4));
}

#[test]
fn grid_values() {
    let d = TermDimensions::new(80, 24);
    assert_eq!((d.columns(), d.screen_lines(), d.total_lines()), (80, 24, 24));
    let cells = row_major_cells(&vec![vec!['a', 'b'], vec!['c', 'd']]);
    let chars: String = cells.iter().map(|c| c.character).collect();
    assert_eq!(chars, "abcd");
    assert_eq!(cursor_cell(3, -2), (3, 0));
    assert_eq!(cursor_cell(3, 7), (3, 7));
}

#[test]
fn preference_names_and_choices() {
    assert_eq!(Theme::Dark.name(), "dark");
    assert_eq!(CursorStyle::Underline.name(), "underline");
    assert_eq!(Theme::from_name("light"), Some(Theme::Light));
    assert_eq!(CursorStyle::from_name("bar"), Some(CursorStyle::Bar));
    assert_eq!(CursorStyle::from_name("Bar"), None);
    assert_eq!(font_families()[0], "monospace");
    assert_eq!(scrollback_choices()[3], ("Sin límite", 1_000_000));
    assert_eq!(cursor_style_choices()[1].1, CursorStyle::Underline);
    let _ = SettingsView;
}

#[test]
fn identity_files_are_filtered_and_sorted() {
    let e = |name: &str, is_file: bool| DirEntry {
        name: name.into(),
        path: format!("/h/.ssh/{name}"),
        is_file,
    };
    let entries = vec![
        e("id_rsa", true),
        e("id_rsa.pub", true),
        e("known_hosts", true),
        e("id_ed25519", true),
        e("id_dir", false),
    ];
    assert_eq!(identity_files(&entries), vec!["/h/.ssh/id_ed25519", "/h/.ssh/id_rsa"]);
    assert_eq!(
        default_identity_paths("/h"),
        vec!["/h/.ssh/id_ed25519", "/h/.ssh/id_ecdsa", "/h/.ssh/id_rsa"]
    );
}

#[test]
fn home_expansion() {
    assert_eq!(expand_home_in("~", Some("/home/u".into())), "/home/u");
    assert_eq!(expand_home_in("~/.ssh/id", Some("/home/u".into())), "/home/u/.ssh/id");
    assert_eq!(expand_home_in("~x", Some("/home/u".into())), "~x");
    assert_eq!(expand_home_in("~/k", None), "~/k");
}

fn options(auth: Authentication, identity: Option<&str>) -> ConnectionOptions {
    ConnectionOptions {
        host: "h".into(),
        port: 2200,
        username: "u".into(),
        identity_file: identity.map(|s| s.to_string()),
        accept_unknown_host_key: true,
        authentication: auth,
    }
}

#[test]
fn authentication_methods() {
    match auth_method(&options(Authentication::PrivateKey(Some("pp".into())), Some("~/.ssh/k")), Some("/home/u".into())) {
        Ok(AuthMethod::PublicKey { identity_file, passphrase }) => {
            assert_eq!(identity_file, "/home/u/.ssh/k");
            assert_eq!(passphrase, Some("pp".into()));
        }
        _ => panic!("public key"),
    }
    let err = auth_method(&options(Authentication::PrivateKey(None), None), None).unwrap_err();
    assert_eq!(err.message(), "profile error: private-key authentication requires an identity file");
    assert!(matches!(
        auth_method(&options(Authentication::NoAuth, Some("k")), None),
        Ok(AuthMethod::NoAuth)
    ));
    let h = ClientHandler::for_options(&options(Authentication::NoAuth, None));
    assert_eq!((h.host.as_str(), h.port, h.accept_unknown_host_key), ("h", 2200, true));
}
