//! How a connection request becomes connection options: profile and ad-hoc
//! requests, the credential that each one uses, and the user-facing text of
//! connection errors (including the host-key confirmation payload).

use vstd::prelude::*;
use vstd::string::*;

use crate::error::{prefixed, AppError};
use crate::profiles::{
    clone_opt, has_named, is_first_named, opt_view, position_named, profiles_view, Authentication
        as ProfileAuthentication, Profile,
};
use crate::target::{adhoc_target, parse_adhoc_target};
use crate::text::{push_char, push_str};

verus! {

/// The error text that asks the user for a password.
pub const PASSWORD_REQUIRED: &'static str = "sshcli:password-required";

/// The prefix of an error text that carries a host-key confirmation payload.
pub const HOST_KEY_PREFIX: &'static str = "sshcli:host-key:";

/// How a connection authenticates, with the secret it uses.
#[derive(Debug)]
pub enum Authentication {
    /// No authentication (saved as `None`).
    NoAuth,
    Password(String),
    /// Private-key authentication with an optional passphrase.
    PrivateKey(Option<String>),
}

/// Everything needed to open an SSH connection.
#[derive(Debug)]
pub struct ConnectionOptions {
    pub host: String,
    pub port: u16,
    pub username: String,
    pub identity_file: Option<String>,
    pub accept_unknown_host_key: bool,
    pub authentication: Authentication,
}

/// The value of an authentication choice.
pub enum AuthView {
    NoAuth,
    Password(Seq<char>),
    PrivateKey(Option<Seq<char>>),
}

/// The value of connection options.
pub struct OptionsView {
    pub host: Seq<char>,
    pub port: u16,
    pub username: Seq<char>,
    pub identity_file: Option<Seq<char>>,
    pub accept_unknown_host_key: bool,
    pub authentication: AuthView,
}

impl View for Authentication {
    type V = AuthView;

    open spec fn view(&self) -> AuthView {
        match self {
            Authentication::NoAuth => AuthView::NoAuth,
            Authentication::Password(p) => AuthView::Password(p@),
            Authentication::PrivateKey(p) => AuthView::PrivateKey(opt_view(*p)),
        }
    }
}

impl View for ConnectionOptions {
    type V = OptionsView;

    open spec fn view(&self) -> OptionsView {
        OptionsView {
            host: self.host@,
            port: self.port,
            username: self.username@,
            identity_file: opt_view(self.identity_file),
            accept_unknown_host_key: self.accept_unknown_host_key,
            authentication: self.authentication@,
        }
    }
}

/// The options for a saved profile with the secret found for it.
pub open spec fn profile_options(p: crate::profiles::ProfileView, secret: Option<Seq<char>>) -> Result<
    OptionsView,
    Seq<char>,
> {
    let auth = match p.authentication {
        ProfileAuthentication::NoAuth => Some(AuthView::NoAuth),
        ProfileAuthentication::Password => match secret {
            Some(s) => Some(AuthView::Password(s)),
            None => None,
        },
        ProfileAuthentication::PrivateKey => Some(AuthView::PrivateKey(secret)),
    };
    match auth {
        Some(a) => Ok(
            OptionsView {
                host: p.host,
                port: p.port,
                username: p.username,
                identity_file: p.identity_file,
                accept_unknown_host_key: p.accept_unknown_host_key,
                authentication: a,
            },
        ),
        None => Err("missing password for profile "@ + p.name),
    }
}

/// Build the connection options of a profile. A password profile needs a
/// secret; a private-key profile takes the secret as its passphrase.
pub fn options_for_profile(profile: &Profile, secret: Option<String>) -> (r: Result<
    ConnectionOptions,
    AppError,
>)
    ensures
        match profile_options(profile@, opt_view(secret)) {
            Ok(o) => r matches Ok(c) && c@ == o,
            Err(m) => r matches Err(AppError::Credential(e)) && e@ == m,
        },
{
    let authentication = match profile.authentication {
        ProfileAuthentication::NoAuth => Authentication::NoAuth,
        ProfileAuthentication::Password => match secret {
            Some(s) => Authentication::Password(s),
            None => {
                return Err(
                    AppError::Credential(prefixed("missing password for profile ", &profile.name)),
                );
            },
        },
        ProfileAuthentication::PrivateKey => Authentication::PrivateKey(secret),
    };
    Ok(
        ConnectionOptions {
            host: profile.host.clone(),
            port: profile.port,
            username: profile.username.clone(),
            identity_file: clone_opt(&profile.identity_file),
            accept_unknown_host_key: profile.accept_unknown_host_key,
            authentication,
        },
    )
}

/// The message when an ad-hoc target has neither a password nor a default key.
pub const NO_PASSWORD_NO_KEY: &'static str =
    "sin contraseña y sin clave por defecto en ~/.ssh; indica una contraseña";

/// Build ad-hoc connection options: a password when one is given, otherwise
/// the default private key (`default_identity`, the first of `id_ed25519`,
/// `id_ecdsa`, `id_rsa` found in `~/.ssh`). Unknown host keys are accepted.
pub fn options_adhoc(
    host: String,
    port: u16,
    username: String,
    password: Option<String>,
    default_identity: Option<String>,
) -> (r: Result<ConnectionOptions, AppError>)
    ensures
        match password {
            Some(pw) => r matches Ok(c) && c@ == OptionsView {
                host: host@,
                port,
                username: username@,
                identity_file: None,
                accept_unknown_host_key: true,
                authentication: AuthView::Password(pw@),
            },
            None => match default_identity {
                None => r matches Err(AppError::Credential(e)) && e@ == NO_PASSWORD_NO_KEY@,
                Some(k) => r matches Ok(c) && c@ == OptionsView {
                    host: host@,
                    port,
                    username: username@,
                    identity_file: Some(k@),
                    accept_unknown_host_key: true,
                    authentication: AuthView::PrivateKey(None),
                },
            },
        },
{
    let (authentication, identity_file) = match password {
        Some(p) => (Authentication::Password(p), None),
        None => match default_identity {
            Some(k) => (Authentication::PrivateKey(None), Some(k)),
            None => {
                return Err(AppError::Credential(String::from_str(NO_PASSWORD_NO_KEY)));
            },
        },
    };
    Ok(
        ConnectionOptions {
            host,
            port,
            username,
            identity_file,
            accept_unknown_host_key: true,
            authentication,
        },
    )
}

/// A connection request from the user interface.
#[derive(Debug)]
pub enum SshConnect {
    /// A saved profile, optionally with a password that overrides the stored one.
    Profile { name: String, password: Option<String> },
    /// An ad-hoc `user@host[:port]` target.
    Adhoc { target: String, password: Option<String> },
}

/// The password a request supplies for a profile: a non-empty one only.
pub open spec fn supplied_password(password: Option<String>) -> Option<Seq<char>> {
    match password {
        Some(p) => if p@.len() > 0 {
            Some(p@)
        } else {
            None
        },
        None => None,
    }
}

/// Whether resolving a profile request needs the stored credential: the
/// profile authenticates and no password was supplied.
pub open spec fn needs_stored_secret(p: crate::profiles::ProfileView, password: Option<String>) -> bool {
    p.authentication != ProfileAuthentication::NoAuth && supplied_password(password) is None
}

/// The outcome of resolving a request for a saved profile `p`, given the
/// stored-credential lookup.
pub open spec fn profile_request_options(
    p: crate::profiles::ProfileView,
    password: Option<String>,
    stored: Result<Option<Seq<char>>, Seq<char>>,
) -> Result<OptionsView, Seq<char>> {
    let secret: Result<Option<Seq<char>>, Seq<char>> = if p.authentication
        == ProfileAuthentication::NoAuth {
        Ok(None)
    } else {
        match supplied_password(password) {
            Some(s) => Ok(Some(s)),
            None => stored,
        }
    };
    match secret {
        Err(m) => Err(m),
        Ok(s) => match profile_options(p, s) {
            Ok(o) => Ok(o),
            Err(m) => if p.authentication == ProfileAuthentication::Password {
                Err(PASSWORD_REQUIRED@)
            } else {
                Err("credential error: "@ + m)
            },
        },
    }
}

/// The outcome of resolving an ad-hoc request.
pub open spec fn adhoc_request_options(
    target: Seq<char>,
    password: Option<String>,
    default_identity: Option<Seq<char>>,
) -> Result<OptionsView, Seq<char>> {
    match adhoc_target(target) {
        Err(m) => Err(m),
        Ok((user, host, port)) => match password {
            Some(pw) => Ok(
                OptionsView {
                    host,
                    port: port as u16,
                    username: user,
                    identity_file: None,
                    accept_unknown_host_key: true,
                    authentication: AuthView::Password(pw@),
                },
            ),
            None => match default_identity {
                Some(k) => Ok(
                    OptionsView {
                        host,
                        port: port as u16,
                        username: user,
                        identity_file: Some(k),
                        accept_unknown_host_key: true,
                        authentication: AuthView::PrivateKey(None),
                    },
                ),
                None => Err(PASSWORD_REQUIRED@),
            },
        },
    }
}

/// The stored-credential lookup as values.
pub open spec fn lookup_view(stored: Result<Option<String>, String>) -> Result<
    Option<Seq<char>>,
    Seq<char>,
> {
    match stored {
        Ok(o) => Ok(opt_view(o)),
        Err(e) => Err(e@),
    }
}

/// Whether an exec outcome stands for a spec outcome.
pub open spec fn options_outcome(
    r: Result<ConnectionOptions, String>,
    o: Result<OptionsView, Seq<char>>,
) -> bool {
    match o {
        Ok(v) => r matches Ok(c) && c@ == v,
        Err(m) => r matches Err(e) && e@ == m,
    }
}

fn supplied(password: &Option<String>) -> (r: Option<String>)
    ensures
        opt_view(r) == supplied_password(*password),
{
    match password {
        Some(p) => {
            if p.as_str().unicode_len() > 0 {
                Some(p.clone())
            } else {
                None
            }
        },
        None => None,
    }
}

/// Resolve a connection request into connection options.
///
/// For a profile request, `profiles` are the saved profiles and `stored` is
/// the outcome of reading the stored credential of the profile (it is used
/// only when [`needs_stored_secret`] holds); a supplied non-empty password
/// wins. For an ad-hoc request, `default_identity` is the default private
/// key, used when no password is given. A password profile without any
/// password yields [`PASSWORD_REQUIRED`], as does an ad-hoc target with
/// neither a password nor a default key.
pub fn resolve_options(
    connect: &SshConnect,
    profiles: &Vec<Profile>,
    stored: Result<Option<String>, String>,
    default_identity: Option<String>,
) -> (r: Result<ConnectionOptions, String>)
    ensures
        match connect {
            SshConnect::Profile { name, password } => {
                &&& !has_named(profiles_view(profiles@), name@) ==> (r matches Err(e) && e@
                    == "profile not found: "@ + name@)
                &&& forall|i: int| #[trigger]
                    is_first_named(profiles_view(profiles@), name@, i) ==> options_outcome(
                        r,
                        profile_request_options(
                            profiles_view(profiles@)[i],
                            *password,
                            lookup_view(stored),
                        ),
                    )
            },
            SshConnect::Adhoc { target, password } => options_outcome(
                r,
                adhoc_request_options(target@, *password, opt_view(default_identity)),
            ),
        },
{
    match connect {
        SshConnect::Profile { name, password } => {
            let i = match position_named(profiles, name.as_str()) {
                Some(i) => i,
                None => {
                    return Err(prefixed("profile not found: ", name));
                },
            };
            let ghost pv = profiles_view(profiles@);
            assert forall|k: int| #[trigger] is_first_named(pv, name@, k) implies k == i by {
                if k < i {
                    assert(pv[k].name != name@);
                }
                if i < k {
                    assert(pv[i as int].name != name@);
                }
            }
            let profile = &profiles[i];
            let secret = if profile.authentication == ProfileAuthentication::NoAuth {
                None
            } else {
                match supplied(password) {
                    Some(p) => Some(p),
                    None => match stored {
                        Ok(s) => s,
                        Err(e) => {
                            return Err(e);
                        },
                    },
                }
            };
            match options_for_profile(profile, secret) {
                Ok(o) => Ok(o),
                Err(e) => {
                    if profile.authentication == ProfileAuthentication::Password {
                        Err(String::from_str(PASSWORD_REQUIRED))
                    } else {
                        Err(e.message())
                    }
                },
            }
        },
        SshConnect::Adhoc { target, password } => {
            let (username, host, port) = match parse_adhoc_target(target.as_str()) {
                Ok(t) => t,
                Err(e) => {
                    return Err(e);
                },
            };
            let has_password = password.is_some();
            match options_adhoc(host, port, username, clone_opt(password), default_identity) {
                Ok(o) => Ok(o),
                Err(e) => {
                    if !has_password {
                        Err(String::from_str(PASSWORD_REQUIRED))
                    } else {
                        Err(e.message())
                    }
                },
            }
        },
    }
}

/// The tab label for a connection: the profile name, or `user@host`.
pub fn label_for(connect: &SshConnect, options: &ConnectionOptions) -> (r: String)
    ensures
        match connect {
            SshConnect::Profile { name, .. } => r@ == name@,
            SshConnect::Adhoc { .. } => r@ == options.username@ + seq!['@'] + options.host@,
        },
{
    match connect {
        SshConnect::Profile { name, .. } => name.clone(),
        SshConnect::Adhoc { .. } => {
            let mut s = options.username.clone();
            push_char(&mut s, '@');
            push_str(&mut s, options.host.as_str());
            s
        },
    }
}

} // verus!
