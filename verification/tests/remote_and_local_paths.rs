use sshcli::paths::{
    join_remote, local_child_path, parent_local_path, parent_path, parent_remote_path,
    remote_child_path,
};

#[test]
fn remote_paths_are_joined_without_duplicate_separators() {
    assert_eq!(join_remote(".", "file.txt"), "file.txt");
    assert_eq!(join_remote("/var/log", "app.log"), "/var/log/app.log");
    assert_eq!(join_remote("/", "tmp"), "/tmp");
}

#[test]
fn parent_path_handles_relative_and_absolute_paths() {
    assert_eq!(parent_path("var/log"), "var");
    assert_eq!(parent_path("/var/log"), "/var");
    assert_eq!(parent_path("file.txt"), ".");
}

#[test]
fn parent_remote_paths() {
    assert_eq!(parent_remote_path("/var/log"), "/var");
    assert_eq!(parent_remote_path("/"), "/");
    assert_eq!(parent_remote_path("file.txt"), ".");
    assert_eq!(parent_remote_path("/var"), "/");
}

#[test]
fn parent_local_paths() {
    assert_eq!(parent_local_path("/home/user"), "/home");
    assert_eq!(parent_local_path("file.txt"), ".");
    assert_eq!(parent_local_path("C:\\Users\\x"), "C:\\Users");
}

#[test]
fn parent_of_joined_path_is_the_directory() {
    assert_eq!(parent_path(&join_remote("/srv/data", "report.csv")), "/srv/data");
    assert_eq!(parent_path(&join_remote("logs", "today.log")), "logs");
}

#[test]
fn child_paths_follow_each_side_separator() {
    assert_eq!(remote_child_path("/var/", "log"), "/var/log");
    assert_eq!(remote_child_path("/", "etc"), "/etc");
    assert_eq!(local_child_path("/home/user/", "notes.txt"), "/home/user/notes.txt");
}
