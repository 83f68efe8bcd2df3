//! The library's error type and its messages.

use vstd::prelude::*;
use vstd::string::*;

use crate::text::{push_decimal, push_str};

verus! {

/// Errors of profile, credential, SSH and SFTP operations. Errors that come
/// from I/O, the SSH transport or key loading carry their message text.
#[derive(Debug)]
pub enum AppError {
    Terminal(String),
    Ssh(String),
    Key(String),
    AuthenticationFailed,
    HostKey { host: String, port: u16, key: String, changed: bool },
    Profile(String),
    Credential(String),
    Sftp(String),
}

/// The user-facing message of an error (its `Display` text).
pub open spec fn error_message(e: AppError) -> Seq<char> {
    match e {
        AppError::Terminal(m) => "terminal error: "@ + m@,
        AppError::Ssh(m) => "ssh error: "@ + m@,
        AppError::Key(m) => "key error: "@ + m@,
        AppError::AuthenticationFailed => "ssh authentication failed"@,
        AppError::HostKey { .. } => "host key verification failed"@,
        AppError::Profile(m) => "profile error: "@ + m@,
        AppError::Credential(m) => "credential error: "@ + m@,
        AppError::Sftp(m) => "sftp error: "@ + m@,
    }
}

impl AppError {
    /// The user-facing message of this error.
    pub fn message(&self) -> (s: String)
        ensures
            s@ == error_message(*self),
    {
        match self {
            AppError::Terminal(m) => prefixed("terminal error: ", m),
            AppError::Ssh(m) => prefixed("ssh error: ", m),
            AppError::Key(m) => prefixed("key error: ", m),
            AppError::AuthenticationFailed => String::from_str("ssh authentication failed"),
            AppError::HostKey { .. } => String::from_str("host key verification failed"),
            AppError::Profile(m) => prefixed("profile error: ", m),
            AppError::Credential(m) => prefixed("credential error: ", m),
            AppError::Sftp(m) => prefixed("sftp error: ", m),
        }
    }
}

/// `prefix` followed by `text`.
pub fn prefixed(prefix: &str, text: &String) -> (s: String)
    ensures
        s@ == prefix@ + text@,
{
    let mut s = String::from_str(prefix);
    push_str(&mut s, text.as_str());
    s
}

/// `prefix` followed by the decimal rendering of `n`.
pub fn prefixed_number(prefix: &str, n: u64) -> (s: String)
    ensures
        s@ == prefix@ + crate::text::decimal(n as nat),
{
    let mut s = String::from_str(prefix);
    push_decimal(&mut s, n);
    s
}

} // verus!
