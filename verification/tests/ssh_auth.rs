use sshcli::cli_profiles::{ProfileStore as CliProfileStore};
use sshcli::credentials::get_optional;
use sshcli::host_keys::{server_key_decision, HostKeyStatus, ServerKeyDecision};
use sshcli::keys::{interactive_step, InteractiveReply, InteractiveStep};
use sshcli::legacy_credentials;
use sshcli::profiles::{Authentication as ProfileAuth, Profile};
use sshcli::ssh_options::{options_adhoc, options_for_profile, resolve_options, Authentication, SshConnect};

#[test]
fn server_keys_are_decided_by_status() {
    assert_eq!(server_key_decision(HostKeyStatus::Known, false), ServerKeyDecision::Accept);
    assert_eq!(server_key_decision(HostKeyStatus::Unknown, true), ServerKeyDecision::TrustAndAccept);
    assert_eq!(
        server_key_decision(HostKeyStatus::Unknown, false),
        ServerKeyDecision::Reject { changed: false }
    );
    assert_eq!(
        server_key_decision(HostKeyStatus::Changed, true),
        ServerKeyDecision::Reject { changed: true }
    );
}

#[test]
fn keyboard_interactive_answers_with_the_password() {
    assert_eq!(interactive_step(&InteractiveReply::Success, "pw", 0), InteractiveStep::Succeed);
    assert_eq!(interactive_step(&InteractiveReply::Failure, "pw", 0), InteractiveStep::Fail);
    assert_eq!(
        interactive_step(&InteractiveReply::Prompts(vec![false, false]), "pw", 1),
        InteractiveStep::Respond(vec!["pw".into(), "pw".into()])
    );
    assert_eq!(interactive_step(&InteractiveReply::Prompts(vec![false, true]), "pw", 1), InteractiveStep::Fail);
    assert_eq!(interactive_step(&InteractiveReply::Success, "pw", 8), InteractiveStep::Fail);
}

fn profile(auth: ProfileAuth) -> Profile {
    Profile {
        name: "prod".into(),
        host: "example.com".into(),
        port: 2222,
        username: "deploy".into(),
        identity_file: Some("~/.ssh/id".into()),
        authentication: auth,
        accept_unknown_host_key: false,
        group: None,
        tags: vec![],
        last_used: None,
        favorite: false,
    }
}

#[test]
fn profile_options_need_a_password_for_password_auth() {
    let err = options_for_profile(&profile(ProfileAuth::Password), None).unwrap_err();
    assert_eq!(err.message(), "credential error: missing password for profile prod");
    let o = options_for_profile(&profile(ProfileAuth::PrivateKey), Some("pp".into())).unwrap();
    assert!(matches!(o.authentication, Authentication::PrivateKey(Some(ref p)) if p == "pp"));
    assert_eq!((o.host.as_str(), o.port), ("example.com", 2222));
}

#[test]
fn adhoc_options() {
    let o = options_adhoc("h".into(), 22, "u".into(), Some("pw".into()), None).unwrap();
    assert!(matches!(o.authentication, Authentication::Password(ref p) if p == "pw"));
    assert!(o.accept_unknown_host_key);
    let o = options_adhoc("h".into(), 22, "u".into(), None, Some("/k".into())).unwrap();
    assert_eq!(o.identity_file, Some("/k".into()));
    let e = options_adhoc("h".into(), 22, "u".into(), None, None).unwrap_err();
    assert_eq!(
        e.message(),
        "credential error: sin contraseña y sin clave por defecto en ~/.ssh; indica una contraseña"
    );
}

#[test]
fn connection_requests_are_resolved() {
    let profiles = vec![profile(ProfileAuth::Password)];
    let missing = SshConnect::Profile { name: "nope".into(), password: None };
    assert_eq!(resolve_options(&missing, &profiles, Ok(None), None).unwrap_err(), "profile not found: nope");
    let needs = SshConnect::Profile { name: "prod".into(), password: Some("".into()) };
    assert_eq!(resolve_options(&needs, &profiles, Ok(None), None).unwrap_err(), "sshcli:password-required");
    let stored = resolve_options(&needs, &profiles, Ok(Some("s".into())), None).unwrap();
    assert!(matches!(stored.authentication, Authentication::Password(ref p) if p == "s"));
    let adhoc = SshConnect::Adhoc { target: "bob@h:2200".into(), password: None };
    let o = resolve_options(&adhoc, &profiles, Ok(None), Some("/k".into())).unwrap();
    assert_eq!((o.username.as_str(), o.host.as_str(), o.port), ("bob", "h", 2200));
}

#[test]
fn unknown_secret_is_absent() {
    assert_eq!(get_optional("sshcli-test-profile-without-secret").unwrap(), None);
    assert!(legacy_credentials::get("sshcli-test-profile-without-secret").is_err());
}

#[test]
fn terminal_client_store_path() {
    let store = CliProfileStore::in_dir("/cfg");
    assert_eq!(store.path, "/cfg/profiles.toml");
}
