use sshcli::credentials::{delete_errors_of, DeleteOutcome};
use sshcli::config::config_dir;
use sshcli::credentials::{
    delete_outcome, fallback_file_name, fallback_path_in, legacy_user, lookup_step,
    profile_key, set_verified_outcome, user, KeyringRead, SaveCheck,
};
use sshcli::error::AppError;

#[test]
fn profile_keys_do_not_collide_for_punctuation() {
    assert_ne!(profile_key("prod/eu"), profile_key("prod:eu"));
    assert_ne!(profile_key("prod/eu"), profile_key("prod_eu"));
}

#[test]
fn profile_key_is_lowercase_hex_of_utf8_bytes() {
    assert_eq!(profile_key("ab"), "6162");
    assert_eq!(profile_key(""), "");
    assert_eq!(profile_key("ñ/Z"), "c3b12f5a");
}

#[test]
fn account_names() {
    assert_eq!(user("ab"), "profile.6162");
    assert_eq!(legacy_user("ab"), "profile:ab");
    assert_eq!(fallback_file_name("ab"), "6162.dpapi");
    assert_eq!(fallback_path_in("/cfg", "ab"), "/cfg/secrets/6162.dpapi");
}

#[test]
fn lookup_steps() {
    match lookup_step("p", KeyringRead::Found("s3cret".into())) {
        Some(Ok(Some(s))) => assert_eq!(s, "s3cret"),
        _ => panic!("a found secret ends the lookup"),
    }
    assert!(lookup_step("p", KeyringRead::Missing).is_none());
    match lookup_step("p", KeyringRead::Failed("locked".into())) {
        Some(Err(e)) => {
            assert_eq!(e.message(), "credential error: cannot read credential for profile p: locked")
        }
        _ => panic!("a failure ends the lookup"),
    }
}

#[test]
fn verified_save_outcomes() {
    assert!(set_verified_outcome("p", SaveCheck::Matched).is_ok());
    match set_verified_outcome("p", SaveCheck::Mismatch) {
        Err(AppError::Credential(m)) => assert_eq!(
            m,
            "cannot save credential for profile p: keyring read-back did not match the supplied secret; fallback: credential error: no encrypted fallback is available for profile p on this platform"
        ),
        _ => panic!("mismatch is an error"),
    }
    match set_verified_outcome("p", SaveCheck::Failed("keyring: denied".into())) {
        Err(AppError::Credential(m)) => assert_eq!(
            m,
            "cannot save credential for profile p: keyring: denied; fallback: credential error: no encrypted fallback is available for profile p on this platform"
        ),
        _ => panic!("failure is an error"),
    }
}

#[test]
fn delete_outcomes_list_every_failure() {
    assert!(delete_outcome("p", &vec![]).is_ok());
    match delete_outcome("p", &vec!["one".into(), "two".into()]) {
        Err(AppError::Credential(m)) => {
            assert_eq!(m, "cannot delete credential for profile p: one; two")
        }
        _ => panic!("failures are an error"),
    }
}

#[test]
fn configuration_directory_is_never_empty() {
    assert!(!config_dir().is_empty());
}

#[test]
fn delete_failures_skip_missing_entries_and_keep_order() {
    assert!(delete_errors_of(DeleteOutcome::Done, DeleteOutcome::Missing).is_empty());
    assert_eq!(
        delete_errors_of(DeleteOutcome::Failed("a".into()), DeleteOutcome::Failed("b".into())),
        vec!["a".to_string(), "b".to_string()]
    );
    assert_eq!(
        delete_errors_of(DeleteOutcome::Missing, DeleteOutcome::Failed("locked".into())),
        vec!["locked".to_string()]
    );
}
