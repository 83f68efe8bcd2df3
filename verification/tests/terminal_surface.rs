use sshcli::terminal_state::TerminalState;
use sshcli::local_pty::local_shell_cwd;
use sshcli::local_pty::{
    choose_shell, forward_pty_event, native_choice_error, requested_shell, shell_profile,
    web_choice_message, LocalPtyError, LocalPtyEvent, NativeLocalPtyBoundary, ShellChoiceError,
    StartupOutput,
};
use sshcli::session_events::{
    connected_status, data_payload, local_closed_status, remote_closed_status,
    write_payload_bytes, EventEmitter, NullEmitter, SessionCounter,
};
use sshcli::terminal_ui::{
    pump_events, resize_command, status_text, TerminalCommand, TerminalEvent, TerminalStatus,
};

#[test]
fn controller_releases_startup_output_in_order() {
    let mut status = TerminalStatus::Starting;
    let (changed, out) = pump_events(
        &mut status,
        vec![TerminalEvent::Output(b"ready".to_vec()), TerminalEvent::Output(b"!".to_vec())],
    );
    assert!(changed);
    assert_eq!(out, vec![b"ready".to_vec(), b"!".to_vec()]);
    assert_eq!(status, TerminalStatus::Ready);
}

#[test]
fn controller_error_and_close_state() {
    let mut status = TerminalStatus::Starting;
    pump_events(&mut status, vec![TerminalEvent::Error("pty failed".into())]);
    assert_eq!(status, TerminalStatus::Error("pty failed".into()));
    assert_eq!(status_text(&status), "Error: pty failed");
    pump_events(&mut status, vec![TerminalEvent::Closed]);
    assert_eq!(status, TerminalStatus::Closed);
    assert_eq!(status_text(&status), "Closed");
}

#[test]
fn controller_connecting_then_connected_is_ready() {
    let mut status = TerminalStatus::Closed;
    let (changed, out) =
        pump_events(&mut status, vec![TerminalEvent::Connecting, TerminalEvent::Connected]);
    assert!(changed);
    assert!(out.is_empty());
    assert_eq!(status, TerminalStatus::Ready);
    assert_eq!(status_text(&TerminalStatus::Starting), "Starting");
    assert_eq!(status_text(&status), "Ready");
}

#[test]
fn empty_pump_changes_nothing() {
    let mut status = TerminalStatus::Error("x".into());
    let (changed, out) = pump_events(&mut status, vec![]);
    assert!(!changed);
    assert!(out.is_empty());
    assert_eq!(status, TerminalStatus::Error("x".into()));
}

#[test]
fn pumping_in_two_batches_matches_one_batch() {
    let mut a = TerminalStatus::Starting;
    let (_, first) = pump_events(&mut a, vec![TerminalEvent::Output(vec![1]), TerminalEvent::Closed]);
    let (_, second) = pump_events(&mut a, vec![TerminalEvent::Output(vec![2])]);
    let mut b = TerminalStatus::Starting;
    let (_, all) = pump_events(
        &mut b,
        vec![TerminalEvent::Output(vec![1]), TerminalEvent::Closed, TerminalEvent::Output(vec![2])],
    );
    assert_eq!(a, b);
    assert_eq!([first, second].concat(), all);
}

#[test]
fn large_output_is_drained_as_one_pump() {
    let mut status = TerminalStatus::Starting;
    let (changed, out) = pump_events(&mut status, vec![TerminalEvent::Output(vec![b'x'; 64 * 1024])]);
    assert!(changed);
    assert_eq!(out[0].len(), 64 * 1024);
    assert_eq!(status, TerminalStatus::Ready);
}

#[test]
fn resize_sends_the_new_size() {
    assert_eq!(resize_command(80, 24), TerminalCommand::Resize(80, 24));
}

#[test]
fn startup_output_is_held_until_ready_then_passed_through() {
    let mut startup = StartupOutput::new();
    assert_eq!(startup.receive(b"one".to_vec()), None);
    assert_eq!(startup.receive(b"two".to_vec()), None);
    assert_eq!(startup.release(), vec![b"one".to_vec(), b"two".to_vec()]);
    assert_eq!(startup.receive(b"three".to_vec()), Some(b"three".to_vec()));
    assert!(startup.release().is_empty());
}

#[test]
fn native_sessions_are_numbered_from_one() {
    let mut boundary = NativeLocalPtyBoundary::new();
    assert_eq!(boundary.next_session_id(), "native-local-1");
    assert_eq!(boundary.next_session_id(), "native-local-2");
}

#[test]
fn requested_shell_is_trimmed_and_blank_means_detect() {
    assert_eq!(requested_shell(Some("  /bin/zsh \n".into())), Some("/bin/zsh".into()));
    assert_eq!(requested_shell(Some("   ".into())), None);
    assert_eq!(requested_shell(None), None);
}

#[test]
fn shell_choice_and_its_errors() {
    assert_eq!(choose_shell(Some("/bin/zsh".into()), true, None), Ok("/bin/zsh".into()));
    assert_eq!(
        choose_shell(Some("/definitely/not/a/shell".into()), false, Some("/bin/sh".into())),
        Err(ShellChoiceError::NotAFile("/definitely/not/a/shell".into()))
    );
    assert_eq!(choose_shell(None, false, Some("/bin/sh".into())), Ok("/bin/sh".into()));
    assert_eq!(choose_shell(None, false, None), Err(ShellChoiceError::NoneDetected));
    let e = native_choice_error(ShellChoiceError::NotAFile("/x".into()));
    assert_eq!(e, LocalPtyError::InvalidShell("/x".into()));
    assert_eq!(e.message(), "interpreter not found: /x");
    assert_eq!(
        native_choice_error(ShellChoiceError::NoneDetected).message(),
        "interpreter not found: no local interpreter detected"
    );
    assert_eq!(web_choice_message(ShellChoiceError::NotAFile("/x".into())), "intérprete no encontrado: /x");
    assert_eq!(web_choice_message(ShellChoiceError::NoneDetected), "no se encontró ningún intérprete local");
}

#[test]
fn pty_errors_have_their_messages() {
    assert_eq!(LocalPtyError::StatePoisoned.message(), "local PTY state poisoned");
    assert_eq!(LocalPtyError::UnknownSession("s1".into()).message(), "unknown session: s1");
    assert_eq!(LocalPtyError::Writer("broken pipe".into()).message(), "broken pipe");
}

#[test]
fn shell_profile_is_the_file_name() {
    assert_eq!(shell_profile("/usr/bin/zsh"), "zsh");
    assert_eq!(shell_profile("/"), "/");
}

#[test]
fn pty_events_are_forwarded_and_close_stops() {
    assert_eq!(
        forward_pty_event(LocalPtyEvent::Output(vec![1, 2])),
        (TerminalEvent::Output(vec![1, 2]), false)
    );
    assert_eq!(
        forward_pty_event(LocalPtyEvent::Error("e".into())),
        (TerminalEvent::Error("e".into()), false)
    );
    assert_eq!(forward_pty_event(LocalPtyEvent::Closed), (TerminalEvent::Closed, true));
}

#[test]
fn data_payloads_are_standard_base64() {
    let p = data_payload("s-1", b"hello world~");
    assert_eq!(p.id, "s-1");
    assert_eq!(p.data, "aGVsbG8gd29ybGR+");
    assert_eq!(write_payload_bytes("aGVsbG8gd29ybGR+Cg==").unwrap(), b"hello world~\n".to_vec());
    assert!(write_payload_bytes("not base64!").is_err());
}

#[test]
fn status_payloads() {
    let c = connected_status("alice@h-1", "alice@h");
    assert_eq!((c.status.as_str(), c.message.as_str()), ("connected", "connected"));
    let r = remote_closed_status("alice@h-1", "alice@h");
    assert_eq!((r.status.as_str(), r.message.as_str()), ("closed", "connection closed"));
    let l = local_closed_status("local-1", "zsh");
    assert_eq!((l.id.as_str(), l.profile.as_str()), ("local-1", "zsh"));
    assert_eq!((l.status.as_str(), l.message.as_str()), ("closed", "shell finalizado"));
}

#[test]
fn session_ids_count_up_per_counter() {
    let mut c = SessionCounter::new();
    assert_eq!(c.next("alice@host"), "alice@host-1");
    assert_eq!(c.next("bob@host"), "bob@host-2");
}

#[test]
fn null_emitter_ignores_events() {
    let emitter = NullEmitter;
    emitter.emit("ssh-data", serde_json::Value::String("x".into()));
}

#[test]
fn local_shell_starts_in_home_then_current_dir_then_dot() {
    assert_eq!(
        local_shell_cwd(Some(b"/home/ana".to_vec()), Some(b"/tmp".to_vec())),
        b"/home/ana".to_vec()
    );
    assert_eq!(local_shell_cwd(Some(Vec::new()), Some(b"/tmp".to_vec())), b"/tmp".to_vec());
    assert_eq!(local_shell_cwd(None, Some(b"/srv".to_vec())), b"/srv".to_vec());
    assert_eq!(local_shell_cwd(None, None), b".".to_vec());
}

#[test]
fn maps_core_grid_and_cursor_to_row_major_surface_data() {
    let mut state = TerminalState::new(4, 2, 8);
    state.process(b"ab\x1b[2;3Hc");
    let cells = state.visible_cells();
    let (cursor_column, cursor_row) = state.cursor_position();
    assert_eq!((state.columns(), state.rows(), cursor_column, cursor_row), (4, 2, 3, 1));
    assert_eq!(cells[0].character, 'a');
    assert_eq!(cells[6].character, 'c');
}

#[test]
fn parses_ansi_text_and_cursor_movement() {
    let mut terminal = TerminalState::new(20, 4, 16);
    terminal.process(b"hello\x1b[2;3Hworld");
    assert_eq!(terminal.cell_char(0, 0), 'h');
    assert_eq!(terminal.cell_char(1, 2), 'w');
}

#[test]
fn preserves_alternate_screen_and_returns_to_primary() {
    let mut terminal = TerminalState::new(20, 4, 16);
    terminal.process(b"primary\x1b[?1049halt\x1b[?1049l");
    assert!(!terminal.is_alternate_screen());
    assert_eq!(terminal.cell_char(0, 0), 'p');
}

#[test]
fn retains_unicode_wide_character_state() {
    let mut terminal = TerminalState::new(20, 4, 16);
    terminal.process("界".as_bytes());
    assert_eq!(terminal.cell_char(0, 0), '界');
}

#[test]
fn resizes_visible_grid_and_keeps_scrollback() {
    let mut terminal = TerminalState::new(8, 2, 16);
    terminal.process(b"one\ntwo\nthree\nfour");
    terminal.resize(12, 3);
    assert_eq!(terminal.columns(), 12);
    assert_eq!(terminal.rows(), 3);
    assert!(terminal.total_lines() >= 3);
}

#[test]
fn parser_accepts_sequences_split_across_chunks() {
    let mut terminal = TerminalState::new(20, 4, 16);
    terminal.process(b"part\x1b[");
    terminal.process(b"2;2Hok");
    assert_eq!(terminal.cell_char(1, 1), 'o');
}

#[test]
fn new_emulator_shows_a_blank_grid_with_the_cursor_home() {
    let state = TerminalState::new(3, 2, 0);
    assert!(state.visible_cells().iter().all(|cell| cell.character == ' '));
    assert_eq!(state.visible_cells().len(), 6);
    assert_eq!(state.cursor_position(), (0, 0));
    assert!(!state.is_alternate_screen());
    assert_eq!(state.total_lines(), 2);
}

#[test]
fn native_boundary_rejects_missing_shell() {
    let requested = requested_shell(Some("/definitely/not/a/shell".to_string()));
    let result = choose_shell(requested, false, None).map_err(native_choice_error);
    assert!(matches!(
        result,
        Err(sshcli::local_pty::LocalPtyError::InvalidShell(ref shell)) if shell == "/definitely/not/a/shell"
    ));
}
