//! The terminal client's profile, connection and file-transfer types.

use vstd::prelude::*;
use vstd::string::*;

use crate::config::{join_path, path_joined};

verus! {

/// How a terminal-client profile authenticates.
#[derive(Clone, Copy, Debug, PartialEq, Eq, Structural)]
pub enum Authentication {
    /// No authentication (`None` in saved profiles).
    NoAuth,
    Password,
    PrivateKey,
}

/// A terminal-client profile. Secrets are never part of it.
#[derive(Debug)]
pub struct Profile {
    pub name: String,
    pub host: String,
    pub port: u16,
    pub username: String,
    pub identity_file: Option<String>,
    pub authentication: Authentication,
    pub accept_unknown_host_key: bool,
}

/// Where the terminal client keeps its profiles.
pub struct ProfileStore {
    pub path: String,
}

impl ProfileStore {
    /// A store whose file is `profiles.toml` in configuration directory `dir`.
    pub fn in_dir(dir: &str) -> (s: ProfileStore)
        ensures
            s.path@ == path_joined(dir@, "profiles.toml"@),
    {
        ProfileStore { path: join_path(dir, "profiles.toml") }
    }

    /// The store in the platform configuration directory.
    pub fn new() -> (s: ProfileStore)
        ensures
            exists|dir: Seq<char>| s.path@ == path_joined(dir, "profiles.toml"@),
    {
        let dir = crate::config::config_dir();
        Self::in_dir(dir.as_str())
    }
}

/// Where and as whom the terminal client connects.
pub struct ConnectionOptions {
    pub host: String,
    pub port: u16,
    pub username: String,
    pub identity_file: Option<String>,
    pub accept_unknown_host_key: bool,
}

/// A file-transfer operation of the terminal client.
pub enum Operation {
    List { path: String },
    Get { remote: String, local: String },
    Put { local: String, remote: String },
    RemoveFile { path: String },
    RemoveDir { path: String },
    MakeDir { path: String },
    PrintWorkingDirectory,
}

} // verus!
