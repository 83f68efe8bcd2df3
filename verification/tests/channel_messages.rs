use sshcli::channel::{channel_step, ChannelMessage, ChannelStep, ExecCollector};

#[test]
fn channel_data_of_both_kinds_is_forwarded() {
    assert_eq!(channel_step(ChannelMessage::Data(b"ok".to_vec())), ChannelStep::Output(b"ok".to_vec()));
    assert_eq!(
        channel_step(ChannelMessage::ExtendedData(b"err".to_vec())),
        ChannelStep::Output(b"err".to_vec())
    );
    assert_eq!(channel_step(ChannelMessage::Eof), ChannelStep::Finish);
    assert_eq!(channel_step(ChannelMessage::Close), ChannelStep::Finish);
    assert_eq!(channel_step(ChannelMessage::Other), ChannelStep::Skip);
}

#[test]
fn exec_collector_stops_at_end_of_file() {
    let mut c = ExecCollector::new();
    assert!(c.receive(ChannelMessage::Data(b"Linux ".to_vec())));
    assert!(c.receive(ChannelMessage::Other));
    assert!(c.receive(ChannelMessage::ExtendedData(b"host".to_vec())));
    assert!(!c.receive(ChannelMessage::Eof));
    assert!(!c.receive(ChannelMessage::Data(b" ignored".to_vec())));
    assert_eq!(c.text(), "Linux host");
}

#[test]
fn exec_collector_replaces_invalid_utf8() {
    let mut c = ExecCollector::new();
    c.receive(ChannelMessage::Data(vec![b'a', 0xff, b'b']));
    c.receive(ChannelMessage::Close);
    assert_eq!(c.text(), "a\u{fffd}b");
}
