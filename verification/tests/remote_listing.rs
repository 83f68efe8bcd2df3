use sshcli::sftp_listing::{list_dir, RemoteEntry, RemoteKind};

fn entry(name: &str, kind: RemoteKind, size: u64) -> RemoteEntry {
    RemoteEntry { name: name.to_string(), kind, size }
}

fn names(entries: &[RemoteEntry]) -> Vec<String> {
    entries.iter().map(|e| e.name.clone()).collect()
}

#[test]
fn listing_drops_dot_entries_and_puts_directories_first() {
    let raw = vec![
        entry("zeta.txt", RemoteKind::File, 10),
        entry(".", RemoteKind::Dir, 0),
        entry("src", RemoteKind::Dir, 0),
        entry("..", RemoteKind::Dir, 0),
        entry("alpha.txt", RemoteKind::File, 3),
        entry("bin", RemoteKind::Dir, 0),
        entry("link", RemoteKind::Symlink, 0),
    ];
    let listed = list_dir(raw);
    assert_eq!(names(&listed), vec!["bin", "src", "alpha.txt", "link", "zeta.txt"]);
    assert_eq!(listed[2].size, 3);
    assert_eq!(listed[3].kind, RemoteKind::Symlink);
}

#[test]
fn listing_keeps_server_order_for_equal_names() {
    let raw = vec![
        entry("same", RemoteKind::File, 1),
        entry("same", RemoteKind::Other, 2),
        entry("Alpha", RemoteKind::File, 3),
    ];
    let listed = list_dir(raw);
    assert_eq!(names(&listed), vec!["Alpha", "same", "same"]);
    assert_eq!(listed[1].size, 1);
    assert_eq!(listed[2].size, 2);
}

#[test]
fn listing_of_only_dot_entries_is_empty() {
    let raw = vec![entry(".", RemoteKind::Dir, 0), entry("..", RemoteKind::Dir, 0)];
    assert!(list_dir(raw).is_empty());
}
