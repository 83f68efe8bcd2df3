//! The local shell boundary: which interpreter to start, how sessions are
//! named, how output produced before the surface is ready is held back, and
//! how PTY events reach the terminal surface.

use vstd::prelude::*;
use vstd::string::*;

use crate::session_events::numbered_id;
use crate::terminal_ui::TerminalEvent;
use crate::text::{chars_of, push_decimal, push_str, string_of_range, trim_range, trim_ws};

verus! {

/// Events of a local PTY. Output stays bytes: decoding and painting belong
/// to the terminal surface.
#[derive(Debug, PartialEq, Eq)]
pub enum LocalPtyEvent {
    Output(Vec<u8>),
    Error(String),
    Closed,
}

/// Failures of the local PTY boundary.
#[derive(Debug, PartialEq, Eq)]
pub enum LocalPtyError {
    StatePoisoned,
    InvalidShell(String),
    Pty(String),
    UnknownSession(String),
    Writer(String),
    Killer(String),
}

/// The message of a local PTY failure (its `Display` text).
pub open spec fn pty_error_message(e: LocalPtyError) -> Seq<char> {
    match e {
        LocalPtyError::StatePoisoned => "local PTY state poisoned"@,
        LocalPtyError::InvalidShell(s) => "interpreter not found: "@ + s@,
        LocalPtyError::Pty(m) => m@,
        LocalPtyError::UnknownSession(id) => "unknown session: "@ + id@,
        LocalPtyError::Writer(m) => m@,
        LocalPtyError::Killer(m) => m@,
    }
}

impl LocalPtyError {
    /// The message of this failure.
    pub fn message(&self) -> (s: String)
        ensures
            s@ == pty_error_message(*self),
    {
        match self {
            LocalPtyError::StatePoisoned => String::from_str("local PTY state poisoned"),
            LocalPtyError::InvalidShell(shell) => {
                let mut s = String::from_str("interpreter not found: ");
                push_str(&mut s, shell.as_str());
                s
            },
            LocalPtyError::Pty(m) => m.clone(),
            LocalPtyError::UnknownSession(id) => {
                let mut s = String::from_str("unknown session: ");
                push_str(&mut s, id.as_str());
                s
            },
            LocalPtyError::Writer(m) => m.clone(),
            LocalPtyError::Killer(m) => m.clone(),
        }
    }
}

/// Starts local PTYs and names them `native-local-<n>`, counting from one.
pub struct NativeLocalPtyBoundary {
    pub next_id: u64,
}

impl NativeLocalPtyBoundary {
    /// A boundary that has started nothing yet.
    pub fn new() -> (b: NativeLocalPtyBoundary)
        ensures
            b.next_id == 0,
    {
        NativeLocalPtyBoundary { next_id: 0 }
    }

    /// Counts one more session and gives its identifier.
    pub fn next_session_id(&mut self) -> (id: String)
        requires
            old(self).next_id < u64::MAX,
        ensures
            final(self).next_id == old(self).next_id + 1,
            id@ == numbered_id("native-local"@, final(self).next_id as nat),
    {
        self.next_id = self.next_id + 1;
        let mut id = String::from_str("native-local-");
        push_decimal(&mut id, self.next_id);
        proof {
            reveal_strlit("native-local-");
            reveal_strlit("native-local");
            reveal_strlit("-");
            assert(id@ =~= numbered_id("native-local"@, self.next_id as nat));
        }
        id
    }
}

/// The interpreter a start request names: its text without surrounding
/// white space, or none when that is empty or no interpreter was given.
pub open spec fn requested_shell_spec(shell: Option<Seq<char>>) -> Option<Seq<char>> {
    match shell {
        Some(s) => if trim_ws(s).len() > 0 {
            Some(trim_ws(s))
        } else {
            None
        },
        None => None,
    }
}

/// The view of an optional text.
pub open spec fn opt_text(o: Option<String>) -> Option<Seq<char>> {
    match o {
        Some(s) => Some(s@),
        None => None,
    }
}

/// The interpreter a start request names, trimmed; `None` asks for the
/// detected one.
pub fn requested_shell(shell: Option<String>) -> (r: Option<String>)
    ensures
        opt_text(r) == requested_shell_spec(opt_text(shell)),
{
    match shell {
        Some(s) => {
            let v = chars_of(s.as_str());
            let (lo, hi) = trim_range(&v, 0, v.len());
            proof {
                assert(v@.subrange(0, v.len() as int) =~= v@);
            }
            if lo < hi {
                Some(string_of_range(&v, lo, hi))
            } else {
                None
            }
        },
        None => None,
    }
}

/// Why no interpreter could be chosen.
#[derive(Debug, PartialEq, Eq)]
pub enum ShellChoiceError {
    /// The requested interpreter is not a file.
    NotAFile(String),
    /// None was requested and none was detected.
    NoneDetected,
}

/// The interpreter to start: the requested one when it is a file, else the
/// detected one. `requested` is what `requested_shell` gave,
/// `requested_is_file` whether it names a file, `detected` what detection
/// found.
pub fn choose_shell(
    requested: Option<String>,
    requested_is_file: bool,
    detected: Option<String>,
) -> (r: Result<String, ShellChoiceError>)
    ensures
        match requested {
            Some(s) => if requested_is_file {
                r matches Ok(x) && x@ == s@
            } else {
                r matches Err(ShellChoiceError::NotAFile(x)) && x@ == s@
            },
            None => match detected {
                Some(d) => r matches Ok(x) && x@ == d@,
                None => r matches Err(ShellChoiceError::NoneDetected),
            },
        },
{
    match requested {
        Some(s) => {
            if requested_is_file {
                Ok(s)
            } else {
                Err(ShellChoiceError::NotAFile(s))
            }
        },
        None => match detected {
            Some(d) => Ok(d),
            None => Err(ShellChoiceError::NoneDetected),
        },
    }
}

/// The boundary's error for a failed choice.
pub fn native_choice_error(e: ShellChoiceError) -> (r: LocalPtyError)
    ensures
        match e {
            ShellChoiceError::NotAFile(s) => r matches LocalPtyError::InvalidShell(x) && x@ == s@,
            ShellChoiceError::NoneDetected => r matches LocalPtyError::InvalidShell(x) && x@
                == "no local interpreter detected"@,
        },
{
    match e {
        ShellChoiceError::NotAFile(s) => LocalPtyError::InvalidShell(s),
        ShellChoiceError::NoneDetected => LocalPtyError::InvalidShell(
            String::from_str("no local interpreter detected"),
        ),
    }
}

/// The web front end's message for a failed choice.
pub fn web_choice_message(e: ShellChoiceError) -> (m: String)
    ensures
        match e {
            ShellChoiceError::NotAFile(s) => m@ == "intérprete no encontrado: "@ + s@,
            ShellChoiceError::NoneDetected => m@ == "no se encontró ningún intérprete local"@,
        },
{
    match e {
        ShellChoiceError::NotAFile(s) => {
            let mut m = String::from_str("intérprete no encontrado: ");
            push_str(&mut m, s.as_str());
            m
        },
        ShellChoiceError::NoneDetected => String::from_str("no se encontró ningún intérprete local"),
    }
}

/// What `std::path::Path::file_name` gives for a path: its last component,
/// or none when the path ends in `..` or is a root.
pub uninterp spec fn path_file_name(path: Seq<char>) -> Option<Seq<char>>;

/// `Path::new(path).file_name()`, as text.
#[verifier::external_body]
fn file_name_of(path: &str) -> (r: Option<String>)
    ensures
        opt_text(r) == path_file_name(path@),
{
    std::path::Path::new(path).file_name().map(|name| name.to_string_lossy().into_owned())
}

/// The profile name shown for a local shell: the interpreter's file name,
/// or the whole path when it has none.
pub fn shell_profile(shell: &str) -> (p: String)
    ensures
        p@ == match path_file_name(shell@) {
            Some(n) => n,
            None => shell@,
        },
{
    match file_name_of(shell) {
        Some(n) => n,
        None => shell.to_owned(),
    }
}

/// The working directory of a new local shell, as raw path bytes: the
/// home directory when it is set and not empty, else the process's current
/// directory, else `.`.
pub fn local_shell_cwd(home: Option<Vec<u8>>, current_dir: Option<Vec<u8>>) -> (cwd: Vec<u8>)
    ensures
        cwd@ == match home {
            Some(h) if h@.len() > 0 => h@,
            _ => match current_dir {
                Some(c) => c@,
                None => seq!['.' as u8],
            },
        },
{
    match home {
        Some(h) if h.len() > 0 => h,
        _ => match current_dir {
            Some(c) => c,
            None => vec![46u8],
        },
    }
}

/// Output read from a shell before the surface is ready is held back and
/// released in order once it is.
pub struct StartupOutput {
    pub ready: bool,
    pub pending: Vec<Vec<u8>>,
}

/// The value of the startup buffer.
pub struct StartupView {
    pub ready: bool,
    pub pending: Seq<Seq<u8>>,
}

/// The views of a list of byte chunks.
pub open spec fn chunks(v: Seq<Vec<u8>>) -> Seq<Seq<u8>> {
    v.map_values(|c: Vec<u8>| c@)
}

impl StartupOutput {
    /// The buffer's value.
    pub open spec fn view_of(&self) -> StartupView {
        StartupView { ready: self.ready, pending: chunks(self.pending@) }
    }

    /// A buffer that holds everything back until the surface is ready.
    pub fn new() -> (s: StartupOutput)
        ensures
            s.view_of() == startup_fresh(),
    {
        let s = StartupOutput { ready: false, pending: Vec::new() };
        assert(s.view_of().pending =~= Seq::<Seq<u8>>::empty());
        s
    }

    /// Takes a chunk read from the shell: handed back to be emitted now when
    /// the surface is ready, otherwise held back.
    pub fn receive(&mut self, chunk: Vec<u8>) -> (emit: Option<Vec<u8>>)
        ensures
            ({
                let (s, e) = startup_step(old(self).view_of(), StartupOp::Receive(chunk@));
                &&& final(self).view_of() == s
                &&& match emit {
                    Some(c) => e == seq![c@],
                    None => e == Seq::<Seq<u8>>::empty(),
                }
            }),
    {
        if self.ready {
            Some(chunk)
        } else {
            let ghost before = chunks(self.pending@);
            self.pending.push(chunk);
            assert(chunks(self.pending@) =~= before.push(chunk@));
            None
        }
    }

    /// Marks the surface ready and hands back what was held, in order.
    pub fn release(&mut self) -> (held: Vec<Vec<u8>>)
        ensures
            ({
                let (s, e) = startup_step(old(self).view_of(), StartupOp::Release);
                &&& final(self).view_of() == s
                &&& chunks(held@) == e
            }),
    {
        self.ready = true;
        let mut held: Vec<Vec<u8>> = Vec::new();
        std::mem::swap(&mut held, &mut self.pending);
        assert(chunks(self.pending@) =~= Seq::<Seq<u8>>::empty());
        held
    }
}

/// What happens to the startup buffer: a chunk is read, or the surface
/// becomes ready.
pub enum StartupOp {
    Receive(Seq<u8>),
    Release,
}

/// A buffer that is not ready and holds nothing.
pub open spec fn startup_fresh() -> StartupView {
    StartupView { ready: false, pending: Seq::empty() }
}

/// One operation on the buffer: the buffer after it, and the chunks it
/// emits.
pub open spec fn startup_step(s: StartupView, op: StartupOp) -> (StartupView, Seq<Seq<u8>>) {
    match op {
        StartupOp::Receive(c) => if s.ready {
            (s, seq![c])
        } else {
            (StartupView { pending: s.pending.push(c), ..s }, Seq::empty())
        },
        StartupOp::Release => (StartupView { ready: true, pending: Seq::empty() }, s.pending),
    }
}

/// A run of operations: the buffer after them and everything emitted, in
/// order.
pub open spec fn startup_run(s: StartupView, ops: Seq<StartupOp>) -> (StartupView, Seq<Seq<u8>>)
    decreases ops.len(),
{
    if ops.len() == 0 {
        (s, Seq::empty())
    } else {
        let (s1, e1) = startup_run(s, ops.drop_last());
        let (s2, e2) = startup_step(s1, ops.last());
        (s2, e1 + e2)
    }
}

/// The chunks read during a run of operations, in order.
pub open spec fn chunks_read(ops: Seq<StartupOp>) -> Seq<Seq<u8>>
    decreases ops.len(),
{
    if ops.len() == 0 {
        Seq::empty()
    } else {
        match ops.last() {
            StartupOp::Receive(c) => chunks_read(ops.drop_last()).push(c),
            StartupOp::Release => chunks_read(ops.drop_last()),
        }
    }
}

/// Starting from a fresh buffer, what has been emitted followed by what is
/// still held is exactly what was read, in the order it was read; once the
/// surface is ready nothing is held, so every chunk has been emitted once,
/// in order.
pub proof fn lemma_startup_output_in_order(ops: Seq<StartupOp>)
    ensures
        ({
            let (s, e) = startup_run(startup_fresh(), ops);
            &&& e + s.pending == chunks_read(ops)
            &&& (s.ready ==> s.pending.len() == 0 && e == chunks_read(ops))
        }),
    decreases ops.len(),
{
    if ops.len() == 0 {
        assert(Seq::<Seq<u8>>::empty() + Seq::<Seq<u8>>::empty() =~= Seq::<Seq<u8>>::empty());
    } else {
        lemma_startup_output_in_order(ops.drop_last());
        let (s1, e1) = startup_run(startup_fresh(), ops.drop_last());
        match ops.last() {
            StartupOp::Receive(c) => {
                if s1.ready {
                    assert(e1 + seq![c] + s1.pending =~= chunks_read(ops.drop_last()).push(c));
                } else {
                    assert(e1 + Seq::<Seq<u8>>::empty() + s1.pending.push(c) =~= chunks_read(
                        ops.drop_last(),
                    ).push(c));
                }
            },
            StartupOp::Release => {
                assert(e1 + s1.pending + Seq::<Seq<u8>>::empty() =~= chunks_read(ops.drop_last()));
            },
        }
    }
}

/// How the local worker forwards a PTY event to the surface, and whether it
/// stops afterwards (it does once the shell has closed).
pub fn forward_pty_event(e: LocalPtyEvent) -> (r: (TerminalEvent, bool))
    ensures
        match e {
            LocalPtyEvent::Output(b) => r.0 matches TerminalEvent::Output(x) && x@ == b@ && !r.1,
            LocalPtyEvent::Error(m) => r.0 matches TerminalEvent::Error(x) && x@ == m@ && !r.1,
            LocalPtyEvent::Closed => r.0 matches TerminalEvent::Closed && r.1,
        },
{
    match e {
        LocalPtyEvent::Output(b) => (TerminalEvent::Output(b), false),
        LocalPtyEvent::Error(m) => (TerminalEvent::Error(m), false),
        LocalPtyEvent::Closed => (TerminalEvent::Closed, true),
    }
}

} // verus!
