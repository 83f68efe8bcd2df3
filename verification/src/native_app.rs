//! The native application's tab and connection-form rules: tab titles, which
//! tabs may close at once, how the SSH form becomes a request and what a
//! connection attempt leaves in it, and the documented shortcuts.

use vstd::prelude::*;
use vstd::string::*;

use crate::ssh_errors::{request_from_error, HostKeyRequest};
use crate::ssh_options::SshConnect;
use crate::text::{chars_of, decimal, push_decimal, push_str, string_of_range, trim_range, trim_ws};

verus! {

/// The documented keyboard shortcuts, as (keys, effect) pairs.
pub fn shortcuts() -> (r: Vec<(&'static str, &'static str)>)
    ensures
        r@.len() == 12,
        r@[0].0@ == "Enter"@ && r@[0].1@ == "submit input (CR)"@,
        r@[1].0@ == "Backspace"@ && r@[1].1@ == "delete previous char"@,
        r@[2].0@ == "Arrow keys / Home / End"@ && r@[2].1@ == "cursor movement (VT100 sequences)"@,
        r@[3].0@ == "Ctrl+C"@ && r@[3].1@ == "SIGINT (interrupt)"@,
        r@[4].0@ == "Ctrl+L"@ && r@[4].1@ == "clear screen"@,
        r@[5].0@ == "Ctrl+Shift+C"@ && r@[5].1@ == "copy selection to clipboard"@,
        r@[6].0@ == "Ctrl+Shift+V"@ && r@[6].1@ == "paste from clipboard"@,
        r@[7].0@ == "Ctrl+Shift+F"@ && r@[7].1@ == "search within scrollback (find next)"@,
        r@[8].0@ == "PageUp / PageDown"@ && r@[8].1@ == "scroll scrollback"@,
        r@[9].0@ == "Mouse wheel"@ && r@[9].1@ == "scroll scrollback"@,
        r@[10].0@ == "Mouse drag"@ && r@[10].1@ == "select text"@,
        r@[11].0@ == "R (when closed)"@ && r@[11].1@ == "restart / reconnect session"@,
{
    let mut r: Vec<(&'static str, &'static str)> = Vec::new();
    r.push(("Enter", "submit input (CR)"));
    r.push(("Backspace", "delete previous char"));
    r.push(("Arrow keys / Home / End", "cursor movement (VT100 sequences)"));
    r.push(("Ctrl+C", "SIGINT (interrupt)"));
    r.push(("Ctrl+L", "clear screen"));
    r.push(("Ctrl+Shift+C", "copy selection to clipboard"));
    r.push(("Ctrl+Shift+V", "paste from clipboard"));
    r.push(("Ctrl+Shift+F", "search within scrollback (find next)"));
    r.push(("PageUp / PageDown", "scroll scrollback"));
    r.push(("Mouse wheel", "scroll scrollback"));
    r.push(("Mouse drag", "select text"));
    r.push(("R (when closed)", "restart / reconnect session"));
    r
}

/// What a dock tab shows.
#[derive(Debug)]
pub enum TabKind {
    /// A terminal session with its label, and whether it has closed.
    Session { id: usize, label: String, closed: bool },
    Profiles,
    /// An SFTP browser for a profile.
    Sftp(String),
    /// The tunnel panel of a profile.
    Tunnels(String),
    /// The telemetry panel of a profile.
    Telemetry(String),
    About,
}

/// The title of a tab.
pub open spec fn tab_title_spec(t: TabKind) -> Seq<char> {
    match t {
        TabKind::Session { label, closed, .. } => if closed {
            label@ + " (closed)"@
        } else {
            label@
        },
        TabKind::Profiles => "Conexiones"@,
        TabKind::Sftp(p) => "SFTP · "@ + p@,
        TabKind::Tunnels(p) => "Túneles · "@ + p@,
        TabKind::Telemetry(p) => "Telemetría · "@ + p@,
        TabKind::About => "About"@,
    }
}

fn prefixed_text(prefix: &str, text: &String) -> (s: String)
    ensures
        s@ == prefix@ + text@,
{
    let mut s = String::from_str(prefix);
    push_str(&mut s, text.as_str());
    s
}

/// The title of a tab.
pub fn tab_title(t: &TabKind) -> (s: String)
    ensures
        s@ == tab_title_spec(*t),
{
    match t {
        TabKind::Session { label, closed, .. } => {
            if *closed {
                let mut s = label.clone();
                push_str(&mut s, " (closed)");
                s
            } else {
                label.clone()
            }
        },
        TabKind::Profiles => String::from_str("Conexiones"),
        TabKind::Sftp(p) => prefixed_text("SFTP · ", p),
        TabKind::Tunnels(p) => prefixed_text("Túneles · ", p),
        TabKind::Telemetry(p) => prefixed_text("Telemetría · ", p),
        TabKind::About => String::from_str("About"),
    }
}

/// The identifier of a tab (only sessions have one).
pub fn tab_id(t: &TabKind) -> (r: Option<usize>)
    ensures
        r == match *t {
            TabKind::Session { id, .. } => Some(id),
            _ => None,
        },
{
    match t {
        TabKind::Session { id, .. } => Some(*id),
        _ => None,
    }
}

/// Whether a tab closes at once; a running session instead asks for
/// confirmation, and the second value names the session to confirm.
pub fn tab_close_request(t: &TabKind) -> (r: (bool, Option<usize>))
    ensures
        match *t {
            TabKind::Session { id, closed, .. } => if closed {
                r == (true, None::<usize>)
            } else {
                r == (false, Some(id))
            },
            _ => r == (true, None::<usize>),
        },
{
    match t {
        TabKind::Session { id, closed, .. } => {
            if *closed {
                (true, None)
            } else {
                (false, Some(*id))
            }
        },
        _ => (true, None),
    }
}

/// The label of the `id`-th local terminal tab: `Terminal <id + 1>`.
pub fn local_tab_label(id: usize) -> (s: String)
    requires
        id < usize::MAX,
    ensures
        s@ == "Terminal "@ + decimal((id + 1) as nat),
{
    let mut s = String::from_str("Terminal ");
    push_decimal(&mut s, (id + 1) as u64);
    s
}

/// Numbers the session tabs.
pub struct TabCounter {
    pub next_id: usize,
}

impl TabCounter {
    /// The counter of a fresh window, whose first two terminals are `0` and
    /// `1`.
    pub fn new() -> (c: TabCounter)
        ensures
            c.next_id == 2,
    {
        TabCounter { next_id: 2 }
    }

    /// The next tab identifier.
    pub fn take(&mut self) -> (id: usize)
        requires
            old(self).next_id < usize::MAX,
        ensures
            id == old(self).next_id,
            final(self).next_id == old(self).next_id + 1,
    {
        let id = self.next_id;
        self.next_id = self.next_id + 1;
        id
    }
}

/// The SSH connection form: a target (`user@host[:port]` or a profile
/// name), an optional password, whether the target is ad hoc, and the last
/// error.
pub struct SshForm {
    pub target: String,
    pub password: String,
    pub adhoc: bool,
    pub error: Option<String>,
}

/// The message when the form has no target.
pub const EMPTY_TARGET: &'static str = "enter a host or profile name";

fn trimmed(s: &str) -> (r: String)
    ensures
        r@ == trim_ws(s@),
{
    let v = chars_of(s);
    assert(v@.subrange(0, v.len() as int) =~= v@);
    let (a, b) = trim_range(&v, 0, v.len());
    string_of_range(&v, a, b)
}

/// The view of an optional text.
pub open spec fn opt_text(o: Option<String>) -> Option<Seq<char>> {
    match o {
        Some(s) => Some(s@),
        None => None,
    }
}

impl SshForm {
    /// An empty form for a profile name.
    pub fn new() -> (f: SshForm)
        ensures
            f.target@.len() == 0 && f.password@.len() == 0 && !f.adhoc && f.error is None,
    {
        SshForm { target: String::new(), password: String::new(), adhoc: false, error: None }
    }

    /// The request the form asks for: the trimmed target as an ad-hoc target
    /// or a profile name, with the trimmed password when one is given. An
    /// empty target sets the error instead.
    pub fn request(&mut self) -> (r: Option<SshConnect>)
        ensures
            final(self).target == old(self).target,
            final(self).password == old(self).password,
            final(self).adhoc == old(self).adhoc,
            trim_ws(old(self).target@).len() == 0 ==> {
                &&& r is None
                &&& opt_text(final(self).error) == Some(EMPTY_TARGET@)
            },
            trim_ws(old(self).target@).len() > 0 ==> {
                let pw = if trim_ws(old(self).password@).len() == 0 {
                    None
                } else {
                    Some(trim_ws(old(self).password@))
                };
                &&& final(self).error == old(self).error
                &&& match r {
                    Some(SshConnect::Adhoc { target, password }) => old(self).adhoc && target@
                        == trim_ws(old(self).target@) && opt_text(password) == pw,
                    Some(SshConnect::Profile { name, password }) => !old(self).adhoc && name@
                        == trim_ws(old(self).target@) && opt_text(password) == pw,
                    None => false,
                }
            },
    {
        let target = trimmed(self.target.as_str());
        if target.as_str().is_empty() {
            self.error = Some(String::from_str(EMPTY_TARGET));
            return None;
        }
        let p = trimmed(self.password.as_str());
        let password = if p.as_str().is_empty() {
            None
        } else {
            Some(p)
        };
        if self.adhoc {
            Some(SshConnect::Adhoc { target, password })
        } else {
            Some(SshConnect::Profile { name: target, password })
        }
    }
}

/// How a connection attempt ended.
#[derive(Debug)]
pub enum ConnectOutcome {
    /// A terminal tab was opened.
    Connected,
    /// The host key waits for the user's decision.
    HostKeyPending,
    /// The attempt failed with this message.
    Failed(String),
}

/// Sorts a failed connection's message: a host-key question to put to the
/// user, or an error to show.
pub fn classify_connect_error(error: String) -> (r: Result<HostKeyRequest, String>)
    ensures
        match request_from_error(error@) {
            Some((h, p, k, c)) => r matches Ok(q) && q.host@ == h && q.port == p && q.key@ == k
                && q.changed == c,
            None => r matches Err(e) && e@ == error@,
        },
{
    match HostKeyRequest::from_error(error.as_str()) {
        Some(q) => Ok(q),
        None => Err(error),
    }
}

impl SshForm {
    /// What a connection attempt leaves in the form: a new tab clears it, a
    /// pending host key clears the error only, a failure shows its message.
    pub fn after_connect(&mut self, outcome: ConnectOutcome)
        ensures
            final(self).adhoc == old(self).adhoc,
            match outcome {
                ConnectOutcome::Connected => {
                    &&& final(self).error is None
                    &&& final(self).target@.len() == 0
                    &&& final(self).password@.len() == 0
                },
                ConnectOutcome::HostKeyPending => {
                    &&& final(self).error is None
                    &&& final(self).target == old(self).target
                    &&& final(self).password == old(self).password
                },
                ConnectOutcome::Failed(e) => {
                    &&& opt_text(final(self).error) == Some(e@)
                    &&& final(self).target == old(self).target
                    &&& final(self).password == old(self).password
                },
            },
    {
        match outcome {
            ConnectOutcome::Connected => {
                self.error = None;
                self.target = String::new();
                self.password = String::new();
            },
            ConnectOutcome::HostKeyPending => {
                self.error = None;
            },
            ConnectOutcome::Failed(e) => {
                self.error = Some(e);
            },
        }
    }
}

/// What the close-confirmation dialog decides: `Some(id)` removes that
/// session's tab; the pending confirmation is cleared once the user answers
/// or closes the dialog.
pub fn close_confirmation(pending: Option<usize>, confirm: bool, cancel: bool, open: bool) -> (r: (
    Option<usize>,
    Option<usize>,
))
    ensures
        match pending {
            None => r == (None::<usize>, None::<usize>),
            Some(id) => if confirm {
                r == (None::<usize>, Some(id))
            } else if cancel || !open {
                r == (None::<usize>, None::<usize>)
            } else {
                r == (Some(id), None::<usize>)
            },
        },
{
    match pending {
        None => (None, None),
        Some(id) => {
            if confirm {
                (None, Some(id))
            } else if cancel || !open {
                (None, None)
            } else {
                (Some(id), None)
            }
        },
    }
}

} // verus!
