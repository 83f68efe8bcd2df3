use sshcli::error::AppError;
use sshcli::host_keys::{host_key_status_of, trust_host_key, HostKeyEntry, HostKeyStatus};
use sshcli::ssh_errors::{adhoc_connect_error, map_ssh_error, HostKeyRequest};
use sshcli::ssh_options::{HOST_KEY_PREFIX, PASSWORD_REQUIRED};

#[test]
fn parses_unknown_host_key_payload() {
    let err = "sshcli:host-key:{\"host\":\"example.com\",\"port\":22,\"key\":\"ssh-ed25519 AAA\",\"changed\":false}";
    let req = HostKeyRequest::from_error(err).expect("parses");
    assert_eq!(req.host, "example.com");
    assert_eq!(req.port, 22);
    assert_eq!(req.key, "ssh-ed25519 AAA");
    assert!(!req.changed);
}

#[test]
fn parses_changed_host_key_payload() {
    let err = "sshcli:host-key:{\"host\":\"a\",\"port\":2222,\"key\":\"k\",\"changed\":true}";
    let req = HostKeyRequest::from_error(err).expect("parses");
    assert!(req.changed);
}

#[test]
fn ignores_non_host_key_errors() {
    assert!(HostKeyRequest::from_error("ssh authentication failed").is_none());
    assert!(HostKeyRequest::from_error("").is_none());
}

#[test]
fn map_ssh_error_wraps_host_key_as_json() {
    let err = AppError::HostKey {
        host: "example.com".into(),
        port: 22,
        key: "ssh-ed25519 AAA".into(),
        changed: false,
    };
    let mapped = map_ssh_error(err);
    assert!(mapped.starts_with(HOST_KEY_PREFIX), "mapped: {mapped}");
    let json = &mapped[HOST_KEY_PREFIX.len()..];
    let parsed: serde_json::Value = serde_json::from_str(json).expect("valid json");
    assert_eq!(parsed["host"], "example.com");
    assert_eq!(parsed["port"], 22);
    assert_eq!(parsed["changed"], false);
}

#[test]
fn map_ssh_error_passes_through_other_errors() {
    let err = AppError::AuthenticationFailed;
    assert_eq!(map_ssh_error(err), "ssh authentication failed");
}

#[test]
fn mapped_host_key_error_parses_back_to_the_same_request() {
    let err = AppError::HostKey {
        host: "db \"primary\"".into(),
        port: 2200,
        key: "ssh-rsa AAAB\\x".into(),
        changed: true,
    };
    let req = HostKeyRequest::from_error(&map_ssh_error(err)).expect("round trip");
    assert_eq!(req.host, "db \"primary\"");
    assert_eq!(req.port, 2200);
    assert_eq!(req.key, "ssh-rsa AAAB\\x");
    assert!(req.changed);
}

#[test]
fn host_key_payload_with_wrong_field_types_is_ignored() {
    assert!(HostKeyRequest::from_error("sshcli:host-key:{\"host\":1,\"port\":22,\"key\":\"k\",\"changed\":true}").is_none());
    assert!(HostKeyRequest::from_error("sshcli:host-key:not json").is_none());
}

#[test]
fn adhoc_authentication_failure_without_password_asks_for_one() {
    assert_eq!(adhoc_connect_error(AppError::AuthenticationFailed, false), PASSWORD_REQUIRED);
    assert_eq!(
        adhoc_connect_error(AppError::AuthenticationFailed, true),
        "ssh authentication failed"
    );
    assert_eq!(adhoc_connect_error(AppError::Ssh("boom".into()), false), "ssh error: boom");
}

#[test]
fn error_messages_follow_display_text() {
    assert_eq!(AppError::Profile("x".into()).message(), "profile error: x");
    assert_eq!(AppError::Credential("y".into()).message(), "credential error: y");
    assert_eq!(
        AppError::HostKey { host: "h".into(), port: 1, key: "k".into(), changed: false }.message(),
        "host key verification failed"
    );
}

#[test]
fn trusted_key_becomes_known_and_other_hosts_stay() {
    let mut entries = vec![HostKeyEntry { host: "a".into(), port: 22, key: "k1".into() }];
    assert_eq!(host_key_status_of(&entries, "b", 22, "k2"), HostKeyStatus::Unknown);
    trust_host_key(&mut entries, "b", 22, "k2");
    assert_eq!(host_key_status_of(&entries, "b", 22, "k2"), HostKeyStatus::Known);
    assert_eq!(host_key_status_of(&entries, "b", 22, "other"), HostKeyStatus::Changed);
    assert_eq!(host_key_status_of(&entries, "a", 22, "k1"), HostKeyStatus::Known);
    assert_eq!(host_key_status_of(&entries, "a", 2222, "k1"), HostKeyStatus::Unknown);
    trust_host_key(&mut entries, "a", 22, "k3");
    assert_eq!(entries.len(), 2);
    assert_eq!(host_key_status_of(&entries, "a", 22, "k3"), HostKeyStatus::Known);
}

#[test]
fn host_key_payload_escapes_quotes_and_control_characters() {
    let text = map_ssh_error(AppError::HostKey {
        host: "h\"x".into(),
        port: 22,
        key: "a\\b\tc\u{1}".into(),
        changed: false,
    });
    assert_eq!(
        text,
        "sshcli:host-key:{\"changed\":false,\"host\":\"h\\\"x\",\"key\":\"a\\\\b\\tc\\u0001\",\"port\":22}"
    );
}
