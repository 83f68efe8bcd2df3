//! Platform configuration directory and file paths inside it.

use vstd::prelude::*;
use vstd::string::*;

verus! {

/// The configuration directory that `directories::ProjectDirs::from("com",
/// "sshcli", "sshcli")` reports for this user, as text; `None` when no home
/// directory can be found. Which directory it is depends on the environment
/// and is not stated; the crate always builds it by joining a non-empty
/// project path onto a base directory, so it is never empty.
#[verifier::external_body]
fn project_config_dir() -> (r: Option<String>)
    ensures
        r matches Some(d) ==> d@.len() > 0,
{
    directories::ProjectDirs::from("com", "sshcli", "sshcli").map(
        |dirs| dirs.config_dir().to_string_lossy().into_owned(),
    )
}

/// What `std::path::Path::join` gives for `base` joined with `child`.
pub uninterp spec fn path_joined(base: Seq<char>, child: Seq<char>) -> Seq<char>;

/// `Path::new(base).join(child)`, as text.
#[verifier::external_body]
pub(crate) fn join_path(base: &str, child: &str) -> (r: String)
    ensures
        r@ == path_joined(base@, child@),
{
    std::path::Path::new(base).join(child).to_string_lossy().into_owned()
}

/// The directory chosen when the platform reports a configuration directory,
/// or `dir` is none: `.`.
pub fn config_dir_or_default(dir: Option<String>) -> (r: String)
    ensures
        match dir {
            Some(d) => r@ == d@,
            None => r@ == "."@,
        },
{
    match dir {
        Some(d) => d,
        None => String::from_str("."),
    }
}

/// Resolves the platform-specific application configuration directory
/// without creating it (`.` when the platform has none); either way the
/// path is not empty.
pub fn config_dir() -> (r: String)
    ensures
        r@.len() > 0,
{
    proof {
        reveal_strlit(".");
    }
    config_dir_or_default(project_config_dir())
}

} // verus!
