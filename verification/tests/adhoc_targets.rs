use sshcli::target::parse_adhoc_target;

#[test]
fn parses_simple_user_host() {
    assert_eq!(
        parse_adhoc_target("alice@example.com").unwrap(),
        ("alice".to_string(), "example.com".to_string(), 22)
    );
}

#[test]
fn parses_user_host_port() {
    assert_eq!(
        parse_adhoc_target("alice@example.com:2222").unwrap(),
        ("alice".to_string(), "example.com".to_string(), 2222)
    );
}

#[test]
fn parses_bracketed_ipv6() {
    assert_eq!(
        parse_adhoc_target("alice@[::1]").unwrap(),
        ("alice".to_string(), "::1".to_string(), 22)
    );
}

#[test]
fn parses_bracketed_ipv6_with_port() {
    assert_eq!(
        parse_adhoc_target("alice@[::1]:2222").unwrap(),
        ("alice".to_string(), "::1".to_string(), 2222)
    );
}

#[test]
fn rejects_missing_at() {
    assert!(parse_adhoc_target("aliceexample.com").is_err());
}

#[test]
fn rejects_empty_username() {
    assert!(parse_adhoc_target("@example.com").is_err());
}

#[test]
fn rejects_empty_host() {
    assert!(parse_adhoc_target("alice@").is_err());
}

#[test]
fn rejects_invalid_port() {
    assert!(parse_adhoc_target("alice@example.com:notaport").is_err());
}

#[test]
fn rejects_unclosed_bracket() {
    assert!(parse_adhoc_target("alice@[::1").is_err());
}

#[test]
fn parse_adhoc_parses_simple_target() {
    assert_eq!(
        parse_adhoc_target("alice@example.com").unwrap(),
        ("alice".to_string(), "example.com".to_string(), 22)
    );
}

#[test]
fn parse_adhoc_parses_port() {
    assert_eq!(
        parse_adhoc_target("alice@example.com:2222").unwrap(),
        ("alice".to_string(), "example.com".to_string(), 2222)
    );
}

#[test]
fn parse_adhoc_parses_bracketed_ipv6() {
    assert_eq!(
        parse_adhoc_target("alice@[::1]").unwrap(),
        ("alice".to_string(), "::1".to_string(), 22)
    );
}

#[test]
fn parse_adhoc_rejects_missing_at() {
    assert!(parse_adhoc_target("aliceexample.com").is_err());
}

#[test]
fn parse_adhoc_rejects_empty_host() {
    assert!(parse_adhoc_target("alice@").is_err());
}

#[test]
fn parse_adhoc_rejects_invalid_port() {
    assert!(parse_adhoc_target("alice@example.com:notaport").is_err());
}

#[test]
fn adhoc_target_messages_are_exact() {
    assert_eq!(
        parse_adhoc_target("aliceexample.com").unwrap_err(),
        "formato esperado usuario@host[:puerto]"
    );
    assert_eq!(
        parse_adhoc_target("alice@example.com:notaport").unwrap_err(),
        "puerto inválido: notaport"
    );
    assert_eq!(
        parse_adhoc_target("alice@example.com:70000").unwrap_err(),
        "puerto inválido: 70000"
    );
}

#[test]
fn adhoc_target_is_trimmed_and_splits_at_first_at() {
    assert_eq!(
        parse_adhoc_target("  bob@host:22  ").unwrap(),
        ("bob".to_string(), "host".to_string(), 22)
    );
}

#[test]
fn formatted_targets_parse_back_to_their_parts() {
    for port in [1u16, 22, 2222, 65535] {
        assert_eq!(
            parse_adhoc_target(&format!("ana@db.internal:{port}")).unwrap(),
            ("ana".to_string(), "db.internal".to_string(), port)
        );
        assert_eq!(
            parse_adhoc_target(&format!("ana@[fe80::1]:{port}")).unwrap(),
            ("ana".to_string(), "fe80::1".to_string(), port)
        );
    }
    assert_eq!(
        parse_adhoc_target("ana@db.internal").unwrap(),
        ("ana".to_string(), "db.internal".to_string(), 22)
    );
}
