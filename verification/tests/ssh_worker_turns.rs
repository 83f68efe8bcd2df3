use sshcli::ssh_options::{Authentication, ConnectionOptions};
use sshcli::ssh_worker::{io_failure_event, ssh_worker_step, WorkerAction, WorkerInput};
use sshcli::terminal_ui::TerminalEvent;

fn options(host: &str) -> ConnectionOptions {
    ConnectionOptions {
        host: host.to_string(),
        port: 22,
        username: "ana".to_string(),
        identity_file: None,
        accept_unknown_host_key: false,
        authentication: Authentication::NoAuth,
    }
}

#[test]
fn reconnect_ends_the_open_connection_first() {
    let actions = ssh_worker_step(true, WorkerInput::Reconnect(options("b.example")));
    assert_eq!(actions.len(), 3);
    assert!(matches!(&actions[0], WorkerAction::Disconnect(reason) if reason == "reconnecting"));
    assert!(matches!(&actions[1], WorkerAction::Emit(TerminalEvent::Connecting)));
    assert!(matches!(&actions[2], WorkerAction::Connect(o) if o.host == "b.example"));

    let first = ssh_worker_step(false, WorkerInput::Reconnect(options("a.example")));
    assert_eq!(first.len(), 2);
    assert!(matches!(&first[0], WorkerAction::Emit(TerminalEvent::Connecting)));
    assert!(matches!(&first[1], WorkerAction::Connect(o) if o.host == "a.example"));
}

#[test]
fn input_and_resize_reach_the_shell_only_while_connected() {
    let written = ssh_worker_step(true, WorkerInput::Input(b"ls\r".to_vec()));
    assert!(matches!(&written[..], [WorkerAction::Write(b)] if b == b"ls\r"));
    assert!(ssh_worker_step(false, WorkerInput::Input(b"ls\r".to_vec())).is_empty());
    let resized = ssh_worker_step(true, WorkerInput::Resize(120, 40));
    assert!(matches!(&resized[..], [WorkerAction::WindowChange(120, 40)]));
    assert!(ssh_worker_step(false, WorkerInput::Resize(120, 40)).is_empty());
    assert!(ssh_worker_step(true, WorkerInput::Idle).is_empty());
}

#[test]
fn closing_disconnects_reports_and_stops() {
    let closed = ssh_worker_step(true, WorkerInput::Close);
    assert_eq!(closed.len(), 3);
    assert!(matches!(&closed[0], WorkerAction::Disconnect(reason) if reason == "closed"));
    assert!(matches!(&closed[1], WorkerAction::Emit(TerminalEvent::Closed)));
    assert!(matches!(&closed[2], WorkerAction::Stop));
    let gone = ssh_worker_step(false, WorkerInput::CommandsGone);
    assert!(matches!(&gone[..], [WorkerAction::Emit(TerminalEvent::Closed), WorkerAction::Stop]));
    assert_eq!(io_failure_event("broken pipe".into()), TerminalEvent::Error("broken pipe".into()));
}
