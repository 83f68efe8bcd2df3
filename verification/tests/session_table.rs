use sshcli::session_table::SessionManager;

#[test]
fn registered_sessions_are_numbered_in_order() {
    let mut m: SessionManager<u32> = SessionManager::new();
    let a = m.register("alice@example.com", 7);
    let b = m.register("prod", 9);
    assert_eq!(a, "alice@example.com-1");
    assert_eq!(b, "prod-2");
    assert_eq!(m.lookup(&a), Ok(&7));
    assert_eq!(m.lookup(&b), Ok(&9));
}

#[test]
fn unknown_session_lookup_names_the_identifier() {
    let m: SessionManager<u32> = SessionManager::new();
    assert_eq!(m.lookup("ghost-3"), Err("unknown session: ghost-3".to_string()));
}

#[test]
fn closed_session_becomes_unknown_and_others_stay() {
    let mut m: SessionManager<&str> = SessionManager::new();
    let a = m.register("a", "first");
    let b = m.register("b", "second");
    assert_eq!(m.close(&a), Some("first"));
    assert_eq!(m.close(&a), None);
    assert_eq!(m.lookup(&a), Err(format!("unknown session: {a}")));
    assert_eq!(m.lookup(&b), Ok(&"second"));
    assert_eq!(m.ids(), vec![b.clone()]);
    let c = m.register("a", "third");
    assert_eq!(c, "a-3");
}
