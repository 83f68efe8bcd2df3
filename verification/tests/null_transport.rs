use sshcli::native_terminal::{SessionEvent, SessionState};
use sshcli::transport::NullTransport;

#[test]
fn null_transport_replays_output_in_order() {
    let mut t = NullTransport::new();
    t.push_output(b"first");
    t.push_output(b"second");
    assert_eq!(t.try_recv(), Some(SessionEvent::Output(b"first".to_vec())));
    assert_eq!(t.try_recv(), Some(SessionEvent::Output(b"second".to_vec())));
    assert_eq!(t.try_recv(), None);
}

#[test]
fn null_transport_records_writes_and_resizes() {
    let mut t = NullTransport::new();
    assert!(t.write(b"ls").is_ok());
    assert!(t.write(b" -la\r").is_ok());
    assert!(t.resize(80, 24).is_ok());
    assert!(t.resize(120, 40).is_ok());
    assert_eq!(t.written, b"ls -la\r".to_vec());
    assert_eq!(t.resizes, vec![(80, 24), (120, 40)]);
}

#[test]
fn null_transport_close_and_restart_lifecycle() {
    let mut t = NullTransport::new();
    assert_eq!(t.current_state(), SessionState::Running);
    t.close();
    assert_eq!(t.current_state(), SessionState::Closed);
    assert_eq!(t.close_count, 1);
    t.restart_result = Err("spawn failed".to_string());
    assert_eq!(t.restart(), Err("spawn failed".to_string()));
    assert_eq!(t.restart_count, 1);
    assert_eq!(t.current_state(), SessionState::Running);
}
