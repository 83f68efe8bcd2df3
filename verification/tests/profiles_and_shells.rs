use sshcli::profiles::{
    add_profile, import_profiles, remove_profile, touch_profile, Authentication, Profile,
    ProfileStore,
};
use sshcli::shells::{list_shells, passwd_shell_in, search_paths, shell_from_passwd_line};

fn profile(name: &str) -> Profile {
    Profile {
        name: name.into(),
        host: "example.com".into(),
        port: 22,
        username: "deploy".into(),
        identity_file: None,
        authentication: Authentication::Password,
        accept_unknown_host_key: false,
        group: None,
        tags: vec![],
        last_used: None,
        favorite: false,
    }
}

fn names(ps: &[Profile]) -> Vec<String> {
    ps.iter().map(|p| p.name.clone()).collect()
}

#[test]
fn parses_passwd_line() {
    assert_eq!(
        shell_from_passwd_line("pedro:x:1000:1000::/home/pedro:/usr/bin/zsh"),
        Some("/usr/bin/zsh".into())
    );
    assert_eq!(shell_from_passwd_line("root:x:0:0::/root:"), None, "campo shell vacío");
    assert_eq!(shell_from_passwd_line(""), None);
}

#[test]
fn passwd_lookup_finds_the_uid_entry() {
    let passwd = "root:x:0:0::/root:/bin/bash\npedro:x:1000:1000::/home/pedro:/usr/bin/zsh\r\n";
    assert_eq!(passwd_shell_in(passwd, 1000), Some("/usr/bin/zsh".into()));
    assert_eq!(passwd_shell_in(passwd, 0), Some("/bin/bash".into()));
    assert_eq!(passwd_shell_in(passwd, 42), None);
}

#[test]
fn shell_list_starts_with_detected_and_has_no_duplicates() {
    let listed = list_shells(
        "/usr/bin/zsh".into(),
        vec!["/usr/bin/bash".into(), "/usr/bin/zsh".into(), "/bin/sh".into(), "/bin/sh".into()],
    );
    assert_eq!(listed, vec!["/usr/bin/zsh", "/usr/bin/bash", "/bin/sh"]);
}

#[test]
fn shells_are_searched_in_the_usual_directories() {
    assert_eq!(search_paths("zsh"), vec!["/usr/bin/zsh", "/usr/local/bin/zsh", "/bin/zsh"]);
}

#[test]
fn adding_then_removing_a_profile_restores_the_list() {
    let mut ps = vec![profile("a"), profile("b")];
    add_profile(&mut ps, profile("c")).unwrap();
    assert_eq!(names(&ps), vec!["a", "b", "c"]);
    let removed = remove_profile(&mut ps, "c").unwrap();
    assert_eq!(removed.name, "c");
    assert_eq!(names(&ps), vec!["a", "b"]);
}

#[test]
fn duplicate_and_missing_names_are_refused() {
    let mut ps = vec![profile("a")];
    let err = add_profile(&mut ps, profile("a")).unwrap_err();
    assert_eq!(err.message(), "profile error: profile already exists: a");
    let err = remove_profile(&mut ps, "zz").unwrap_err();
    assert_eq!(err.message(), "profile error: profile not found: zz");
    assert_eq!(names(&ps), vec!["a"]);
}

#[test]
fn touching_marks_only_the_named_profile() {
    let mut ps = vec![profile("a"), profile("b")];
    touch_profile(&mut ps, "b", 1_700_000_000);
    assert_eq!(ps[0].last_used, None);
    assert_eq!(ps[1].last_used, Some(1_700_000_000));
    touch_profile(&mut ps, "nope", 5);
    assert_eq!(ps[1].last_used, Some(1_700_000_000));
}

#[test]
fn importing_skips_taken_names_and_counts_added() {
    let mut ps = vec![profile("a")];
    let added = import_profiles(&mut ps, vec![profile("a"), profile("b"), profile("b"), profile("c")]);
    assert_eq!(added, 2);
    assert_eq!(names(&ps), vec!["a", "b", "c"]);
    let again = import_profiles(&mut ps, vec![profile("b"), profile("c")]);
    assert_eq!(again, 0);
}

#[test]
fn duplicate_profile_copies_every_field() {
    let mut p = profile("x");
    p.tags = vec!["web".into()];
    p.group = Some("prod".into());
    let q = p.duplicate();
    assert_eq!(q.name, "x");
    assert_eq!(q.tags, vec!["web"]);
    assert_eq!(q.group, Some("prod".into()));
}

#[test]
fn store_file_lives_in_the_given_directory() {
    let store = ProfileStore::in_dir("/tmp/cfg");
    assert_eq!(store.path, "/tmp/cfg/profiles.toml");
}
