//! Private keys: `~` expansion, which files in `~/.ssh` are identity files,
//! where the default key is looked for, and how a connection authenticates.

use vstd::prelude::*;
use vstd::string::*;

use crate::config::{join_path, path_joined};
use crate::error::AppError;
use crate::profiles::opt_view;
use crate::ssh_options::{Authentication, ConnectionOptions};
use crate::text::{chars_of, string_of_range, text_less, text_less_exec};

verus! {

/// The home directory that `directories::BaseDirs::new()` reports, as text;
/// `None` when none can be found. The answer depends on the environment.
#[verifier::external_body]
fn home_dir() -> Option<String> {
    directories::BaseDirs::new().map(|dirs| dirs.home_dir().to_string_lossy().into_owned())
}

/// `path` with a leading `~` (alone, or followed by `/`) replaced by the home
/// directory `home`; unchanged when there is no home directory or no `~`.
pub open spec fn expanded(path: Seq<char>, home: Option<Seq<char>>) -> Seq<char> {
    match home {
        Some(h) => if path == seq!['~'] {
            h
        } else if path.len() >= 2 && path[0] == '~' && path[1] == '/' {
            path_joined(h, path.skip(2))
        } else {
            path
        },
        None => path,
    }
}

/// Expands a leading `~` with the home directory `home`.
pub fn expand_home_in(path: &str, home: Option<String>) -> (r: String)
    ensures
        r@ == expanded(path@, opt_view(home)),
{
    let v = chars_of(path);
    match home {
        Some(h) => {
            if v.len() == 1 && v[0] == '~' {
                assert(v@ =~= seq!['~']);
                h
            } else if v.len() >= 2 && v[0] == '~' && v[1] == '/' {
                let rest = string_of_range(&v, 2, v.len());
                assert(rest@ =~= path@.skip(2));
                join_path(h.as_str(), rest.as_str())
            } else {
                proof {
                    if path@ == seq!['~'] {
                        assert(v@.len() == 1);
                    }
                }
                String::from_str(path)
            }
        },
        None => String::from_str(path),
    }
}

/// Expands a leading `~` with the user's home directory.
pub fn expand_home(path: &str) -> (r: String)
    ensures
        exists|home: Option<Seq<char>>| r@ == expanded(path@, home),
{
    let v = chars_of(path);
    let wants_home = v.len() >= 1 && v[0] == '~' && (v.len() == 1 || v[1] == '/');
    if wants_home {
        let home = home_dir();
        expand_home_in(path, home)
    } else {
        let r = String::from_str(path);
        assert(r@ == expanded(path@, None));
        r
    }
}

/// A directory entry of `~/.ssh`: its file name, its path, and whether it is
/// a regular file.
pub struct DirEntry {
    pub name: String,
    pub path: String,
    pub is_file: bool,
}

/// Whether a directory entry is an identity file: a regular file named
/// `id_*` that is not a `.pub` public key.
pub open spec fn is_identity_file(e: DirEntry) -> bool {
    &&& e.is_file
    &&& e.name@.len() >= 3 && e.name@.take(3) == "id_"@
    &&& !(e.name@.len() >= 4 && e.name@.skip(e.name@.len() - 4) == ".pub"@)
}

fn starts_with_id(v: &Vec<char>) -> (b: bool)
    ensures
        b == (v@.len() >= 3 && v@.take(3) == "id_"@),
{
    proof {
        reveal_strlit("id_");
    }
    let b = v.len() >= 3 && v[0] == 'i' && v[1] == 'd' && v[2] == '_';
    proof {
        if v@.len() >= 3 && v@.take(3) == "id_"@ {
            assert(v@.take(3)[0] == 'i' && v@.take(3)[1] == 'd' && v@.take(3)[2] == '_');
        }
        if b {
            assert(v@.take(3) =~= "id_"@);
        }
    }
    b
}

fn ends_with_pub(v: &Vec<char>) -> (b: bool)
    ensures
        b == (v@.len() >= 4 && v@.skip(v@.len() - 4) == ".pub"@),
{
    proof {
        reveal_strlit(".pub");
    }
    if v.len() < 4 {
        return false;
    }
    let n = v.len();
    let b = v[n - 4] == '.' && v[n - 3] == 'p' && v[n - 2] == 'u' && v[n - 1] == 'b';
    proof {
        let t = v@.skip(n - 4);
        if t == ".pub"@ {
            assert(t[0] == '.' && t[1] == 'p' && t[2] == 'u' && t[3] == 'b');
        }
        if b {
            assert(t =~= ".pub"@);
        }
    }
    b
}

/// Whether each text sorts no later than the next one (`str` order).
pub open spec fn sorted_texts(s: Seq<Seq<char>>) -> bool {
    forall|i: int, j: int| 0 <= i < j < s.len() ==> !text_less(#[trigger] s[j], #[trigger] s[i])
}

/// The texts of a list of strings.
pub open spec fn texts(v: Seq<String>) -> Seq<Seq<char>> {
    v.map_values(|s: String| s@)
}

/// The paths of the identity files among `entries`.
pub open spec fn identity_paths(entries: Seq<DirEntry>) -> Seq<Seq<char>>
    decreases entries.len(),
{
    if entries.len() == 0 {
        Seq::empty()
    } else {
        let rest = identity_paths(entries.drop_last());
        if is_identity_file(entries.last()) {
            rest.push(entries.last().path@)
        } else {
            rest
        }
    }
}

/// The paths of the identity files among the entries of `~/.ssh`, sorted.
pub fn identity_files(entries: &Vec<DirEntry>) -> (r: Vec<String>)
    ensures
        sorted_texts(texts(r@)),
        texts(r@).to_multiset() == identity_paths(entries@).to_multiset(),
{
    let mut out: Vec<String> = Vec::new();
    let mut i: usize = 0;
    assert(texts(out@) =~= Seq::<Seq<char>>::empty());
    assert(identity_paths(entries@.take(0)) =~= Seq::<Seq<char>>::empty());
    while i < entries.len()
        invariant
            0 <= i <= entries.len(),
            sorted_texts(texts(out@)),
            texts(out@).to_multiset() == identity_paths(entries@.take(i as int)).to_multiset(),
        decreases entries.len() - i,
    {
        let e = &entries[i];
        let name = chars_of(e.name.as_str());
        let keep = e.is_file && starts_with_id(&name) && !ends_with_pub(&name);
        proof {
            assert(entries@.take(i as int + 1).drop_last() =~= entries@.take(i as int));
            assert(entries@.take(i as int + 1).last() == *e);
        }
        if keep {
            let ghost before = texts(out@);
            let mut j: usize = 0;
            while j < out.len() && !text_less_exec(e.path.as_str(), out[j].as_str())
                invariant
                    0 <= j <= out.len(),
                    before == texts(out@),
                    forall|m: int| 0 <= m < j ==> !text_less(e.path@, #[trigger] before[m]),
                decreases out.len() - j,
            {
                j += 1;
            }
            out.insert(j, e.path.clone());
            proof {
                let now = texts(out@);
                assert(now =~= before.insert(j as int, e.path@));
                assert forall|a: int, b: int| 0 <= a < b < now.len() implies !text_less(
                    #[trigger] now[b],
                    #[trigger] now[a],
                ) by {
                    if b == j {
                        assert(now[a] == before[a]);
                    } else if a == j {
                        assert(now[b] == before[b - 1]);
                        crate::text::lemma_text_less_asymmetric(e.path@, before[j as int]);
                        if b - 1 > j {
                            if text_less(before[b - 1], e.path@) {
                                crate::text::lemma_text_less_transitive(
                                    before[b - 1],
                                    e.path@,
                                    before[j as int],
                                );
                            }
                        }
                    } else {
                        let sa = if a < j { a } else { a - 1 };
                        let sb = if b < j { b } else { b - 1 };
                        assert(now[a] == before[sa]);
                        assert(now[b] == before[sb]);
                    }
                }
                vstd::seq_lib::to_multiset_insert(before, j as int, e.path@);
                vstd::seq_lib::to_multiset_build(identity_paths(entries@.take(i as int)), e.path@);
            }
        }
        i += 1;
    }
    proof {
        assert(entries@.take(entries.len() as int) =~= entries@);
    }
    out
}

/// The key files tried, in order, when an ad-hoc connection has no password.
pub const DEFAULT_KEY_NAMES: [&'static str; 3] = ["id_ed25519", "id_ecdsa", "id_rsa"];

/// Where the default keys are looked for under the home directory `home`:
/// `home/.ssh/<name>` for each default key name, in order.
pub fn default_identity_paths(home: &str) -> (r: Vec<String>)
    ensures
        r@.len() == 3,
        forall|i: int|
            0 <= i < 3 ==> #[trigger] r@[i]@ == path_joined(path_joined(home@, ".ssh"@), DEFAULT_KEY_NAMES[i]@),
{
    let ssh = join_path(home, ".ssh");
    let mut r: Vec<String> = Vec::new();
    let mut i: usize = 0;
    while i < 3
        invariant
            0 <= i <= 3,
            ssh@ == path_joined(home@, ".ssh"@),
            r@.len() == i,
            forall|k: int| 0 <= k < i ==> #[trigger] r@[k]@ == path_joined(ssh@, DEFAULT_KEY_NAMES[k]@),
        decreases 3 - i,
    {
        r.push(join_path(ssh.as_str(), DEFAULT_KEY_NAMES[i]));
        i += 1;
    }
    r
}

/// How a connection authenticates once connected.
#[derive(Debug)]
pub enum AuthMethod {
    /// By password.
    Password(String),
    /// By the private key in this file, with an optional passphrase.
    PublicKey { identity_file: String, passphrase: Option<String> },
    /// Without credentials.
    NoAuth,
}

/// The message of a private-key connection without an identity file.
pub const KEY_FILE_REQUIRED: &'static str = "private-key authentication requires an identity file";

/// How the options authenticate: a password, the identity file (with `~`
/// expanded by `home`) for private-key authentication, or nothing; a
/// private-key connection without an identity file is refused.
pub fn auth_method(options: &ConnectionOptions, home: Option<String>) -> (r: Result<AuthMethod, AppError>)
    ensures
        match options.authentication {
            Authentication::Password(p) => r matches Ok(AuthMethod::Password(x)) && x@ == p@,
            Authentication::NoAuth => r matches Ok(AuthMethod::NoAuth),
            Authentication::PrivateKey(pp) => match options.identity_file {
                None => r matches Err(AppError::Profile(m)) && m@ == KEY_FILE_REQUIRED@,
                Some(f) => r matches Ok(AuthMethod::PublicKey { identity_file, passphrase })
                    && identity_file@ == expanded(f@, opt_view(home)) && opt_view(passphrase)
                    == opt_view(pp),
            },
        },
{
    match &options.authentication {
        Authentication::Password(p) => Ok(AuthMethod::Password(p.clone())),
        Authentication::NoAuth => Ok(AuthMethod::NoAuth),
        Authentication::PrivateKey(pp) => match &options.identity_file {
            None => Err(AppError::Profile(String::from_str(KEY_FILE_REQUIRED))),
            Some(f) => Ok(
                AuthMethod::PublicKey {
                    identity_file: expand_home_in(f.as_str(), home),
                    passphrase: crate::profiles::clone_opt(pp),
                },
            ),
        },
    }
}

/// What the SSH client checks server keys against: the host and port it
/// connects to, and whether unknown keys are accepted.
#[derive(Debug)]
pub struct ClientHandler {
    pub host: String,
    pub port: u16,
    pub accept_unknown_host_key: bool,
}

impl ClientHandler {
    /// The handler of a connection with these options.
    pub fn for_options(options: &ConnectionOptions) -> (h: ClientHandler)
        ensures
            h.host@ == options.host@,
            h.port == options.port,
            h.accept_unknown_host_key == options.accept_unknown_host_key,
    {
        ClientHandler {
            host: options.host.clone(),
            port: options.port,
            accept_unknown_host_key: options.accept_unknown_host_key,
        }
    }
}

} // verus!

verus! {

/// A keyboard-interactive answer from the server: success, failure, or
/// prompts (each with whether the answer would be echoed).
#[derive(Debug, Clone, PartialEq, Eq)]
pub enum InteractiveReply {
    Success,
    Failure,
    Prompts(Vec<bool>),
}

/// What the client does next in keyboard-interactive authentication.
#[derive(Debug, Clone, PartialEq, Eq)]
pub enum InteractiveStep {
    /// Authenticated.
    Succeed,
    /// Not authenticated.
    Fail,
    /// Send these answers.
    Respond(Vec<String>),
}

/// How many prompt rounds a password is offered to.
pub const INTERACTIVE_ROUNDS: usize = 8;

/// The answers to prompts in a round: the password for each prompt, or
/// none when one of them would echo its answer.
pub open spec fn prompt_answers(echo: Seq<bool>, password: Seq<char>) -> Option<Seq<Seq<char>>> {
    if forall|i: int| 0 <= i < echo.len() ==> !#[trigger] echo[i] {
        Some(Seq::new(echo.len(), |i: int| password))
    } else {
        None
    }
}

/// The next step of keyboard-interactive authentication with a password,
/// at round `round` (from 0): after the last round it fails; success and
/// failure end it; prompts are answered with the password each, unless one
/// would echo its answer.
pub fn interactive_step(reply: &InteractiveReply, password: &str, round: usize) -> (s: InteractiveStep)
    ensures
        round >= INTERACTIVE_ROUNDS ==> s == InteractiveStep::Fail,
        round < INTERACTIVE_ROUNDS ==> match *reply {
            InteractiveReply::Success => s == InteractiveStep::Succeed,
            InteractiveReply::Failure => s == InteractiveStep::Fail,
            InteractiveReply::Prompts(echo) => match prompt_answers(echo@, password@) {
                Some(answers) => s matches InteractiveStep::Respond(v) && texts(v@) == answers,
                None => s == InteractiveStep::Fail,
            },
        },
{
    if round >= INTERACTIVE_ROUNDS {
        return InteractiveStep::Fail;
    }
    match reply {
        InteractiveReply::Success => InteractiveStep::Succeed,
        InteractiveReply::Failure => InteractiveStep::Fail,
        InteractiveReply::Prompts(echo) => {
            let mut answers: Vec<String> = Vec::new();
            let mut i: usize = 0;
            while i < echo.len()
                invariant
                    0 <= i <= echo.len(),
                    *reply == InteractiveReply::Prompts(*echo),
                    round < INTERACTIVE_ROUNDS,
                    forall|k: int| 0 <= k < i ==> !#[trigger] echo@[k],
                    answers@.len() == i,
                    forall|k: int| 0 <= k < i ==> #[trigger] answers@[k]@ == password@,
                decreases echo.len() - i,
            {
                if echo[i] {
                    return InteractiveStep::Fail;
                }
                answers.push(String::from_str(password));
                i += 1;
            }
            assert(texts(answers@) =~= Seq::new(echo@.len(), |k: int| password@));
            InteractiveStep::Respond(answers)
        },
    }
}

} // verus!
