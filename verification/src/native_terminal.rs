//! The native terminal widget's decisions: what a key or clipboard event
//! does, which bytes reach the shell, how output and exit events are taken,
//! and how far to scroll to reveal a search match.

use vstd::prelude::*;
use vstd::string::*;
use vstd::utf8::encode_utf8;

verus! {

/// The `TERM` value advertised to local shells.
pub const DEFAULT_TERM: &'static str = "xterm-256color";

/// Messages of a local PTY session's read loop.
#[derive(Debug, Clone, PartialEq, Eq)]
pub enum SessionEvent {
    /// Output bytes for the terminal parser.
    Output(Vec<u8>),
    /// The child process exited.
    Closed,
    /// Starting the child failed.
    SpawnFailed(String),
}

/// The lifecycle state of a local PTY session.
#[derive(Debug, Clone, Copy, PartialEq, Eq, Structural)]
pub enum SessionState {
    Running,
    Closed,
}

/// Whether any of `events` reports the child's exit.
pub open spec fn any_closed(events: Seq<SessionEvent>) -> bool
    decreases events.len(),
{
    events.len() > 0 && (any_closed(events.drop_last()) || events.last() is Closed)
}

/// The output chunks of `events`, in arrival order.
pub open spec fn session_outputs(events: Seq<SessionEvent>) -> Seq<Seq<u8>>
    decreases events.len(),
{
    if events.len() == 0 {
        Seq::empty()
    } else {
        let rest = session_outputs(events.drop_last());
        match events.last() {
            SessionEvent::Output(b) => rest.push(b@),
            _ => rest,
        }
    }
}

/// The views of a list of byte chunks.
pub open spec fn byte_chunks(v: Seq<Vec<u8>>) -> Seq<Seq<u8>> {
    v.map_values(|c: Vec<u8>| c@)
}

/// Takes a batch of pending events: the output to feed, in order, and
/// whether the child exited; an exit marks the session closed, spawn
/// failures are dropped.
pub fn drain_events(state: &mut SessionState, events: Vec<SessionEvent>) -> (r: (Vec<Vec<u8>>, bool))
    ensures
        byte_chunks(r.0@) == session_outputs(events@),
        r.1 == any_closed(events@),
        *final(state) == if any_closed(events@) {
            SessionState::Closed
        } else {
            *old(state)
        },
{
    let ghost all = events@;
    let mut out: Vec<Vec<u8>> = Vec::new();
    let mut closed = false;
    proof {
        broadcast use vstd::std_specs::vec::axiom_spec_into_iter;

    }
    for e in it: events.into_iter()
        invariant
            it.seq() == all,
            closed == any_closed(all.take(it.index() as int)),
            byte_chunks(out@) == session_outputs(all.take(it.index() as int)),
    {
        let ghost i = it.index() as int;
        proof {
            assert(all.take(i + 1).drop_last() =~= all.take(i));
            assert(all.take(i + 1).last() == e);
        }
        match e {
            SessionEvent::Output(bytes) => {
                out.push(bytes);
                proof {
                    assert(byte_chunks(out@) =~= session_outputs(all.take(i + 1)));
                }
            },
            SessionEvent::Closed => {
                closed = true;
            },
            SessionEvent::SpawnFailed(_) => {},
        }
    }
    proof {
        assert(all.take(all.len() as int) =~= all);
    }
    if closed {
        *state = SessionState::Closed;
    }
    (out, closed)
}

/// The shell a session starts: the configured one, else the detected one.
pub fn resolve_shell(configured: Option<String>, detected: Option<String>) -> (r: Option<String>)
    ensures
        r == match configured {
            Some(s) => Some(s),
            None => detected,
        },
{
    match configured {
        Some(s) => Some(s),
        None => detected,
    }
}

/// The keys the terminal widget maps itself; characters arrive as text.
#[derive(Debug, Clone, Copy, PartialEq, Eq, Structural)]
pub enum TermKey {
    Enter,
    Backspace,
    Tab,
    Escape,
    ArrowUp,
    ArrowDown,
    ArrowRight,
    ArrowLeft,
    Home,
    End,
    Delete,
    Insert,
    PageUp,
    PageDown,
    C,
    F,
    L,
    V,
    Other,
}

/// What the widget does for an input.
#[derive(Debug, Clone, PartialEq, Eq)]
pub enum TermAction {
    /// Copy the selection to the clipboard.
    CopySelection,
    /// Paste (the clipboard text arrives as its own event).
    Paste,
    /// Open the search bar with an empty query.
    OpenSearch,
    /// Send these bytes to the shell.
    Write(Vec<u8>),
    /// Send these bytes to the shell and to the local emulator (clear screen).
    WriteAndEcho(Vec<u8>),
    /// Scroll the view by this many lines (positive is up).
    Scroll(i32),
    /// Nothing.
    Ignore,
}

/// The value of an action.
pub enum ActionView {
    CopySelection,
    Paste,
    OpenSearch,
    Write(Seq<u8>),
    WriteAndEcho(Seq<u8>),
    Scroll(int),
    Ignore,
}

/// The value of an action.
pub open spec fn action_view(a: TermAction) -> ActionView {
    match a {
        TermAction::CopySelection => ActionView::CopySelection,
        TermAction::Paste => ActionView::Paste,
        TermAction::OpenSearch => ActionView::OpenSearch,
        TermAction::Write(b) => ActionView::Write(b@),
        TermAction::WriteAndEcho(b) => ActionView::WriteAndEcho(b@),
        TermAction::Scroll(n) => ActionView::Scroll(n as int),
        TermAction::Ignore => ActionView::Ignore,
    }
}

/// Clear screen and home the cursor (`ESC [2J ESC [H`).
pub open spec fn clear_screen() -> Seq<u8> {
    seq![0x1bu8, 0x5bu8, 0x32u8, 0x4au8, 0x1bu8, 0x5bu8, 0x48u8]
}

/// The bytes a non-character key sends, if any.
pub open spec fn key_sequence(key: TermKey, shift: bool) -> Option<Seq<u8>> {
    match key {
        TermKey::Enter => Some(seq![13u8]),
        TermKey::Backspace => Some(seq![0x7fu8]),
        TermKey::Tab => if shift {
            Some(seq![0x1bu8, 0x5bu8, 0x5au8])
        } else {
            Some(seq![9u8])
        },
        TermKey::Escape => Some(seq![0x1bu8]),
        TermKey::ArrowUp => Some(seq![0x1bu8, 0x5bu8, 0x41u8]),
        TermKey::ArrowDown => Some(seq![0x1bu8, 0x5bu8, 0x42u8]),
        TermKey::ArrowRight => Some(seq![0x1bu8, 0x5bu8, 0x43u8]),
        TermKey::ArrowLeft => Some(seq![0x1bu8, 0x5bu8, 0x44u8]),
        TermKey::Home => Some(seq![0x1bu8, 0x5bu8, 0x48u8]),
        TermKey::End => Some(seq![0x1bu8, 0x5bu8, 0x46u8]),
        TermKey::Delete => Some(seq![0x1bu8, 0x5bu8, 0x33u8, 0x7eu8]),
        TermKey::Insert => Some(seq![0x1bu8, 0x5bu8, 0x32u8, 0x7eu8]),
        _ => None,
    }
}

/// What a pressed key does: Ctrl+Shift+C/V/F copy, paste and open search;
/// Ctrl+L clears the screen and Ctrl+C sends an interrupt; Page Up/Down
/// scroll by a screen; other keys send their sequence.
pub open spec fn key_action_spec(key: TermKey, ctrl: bool, shift: bool, screen_lines: int) -> ActionView {
    if ctrl && shift && key == TermKey::C {
        ActionView::CopySelection
    } else if ctrl && shift && key == TermKey::V {
        ActionView::Paste
    } else if ctrl && shift && key == TermKey::F {
        ActionView::OpenSearch
    } else if ctrl && !shift && key == TermKey::L {
        ActionView::WriteAndEcho(clear_screen())
    } else if ctrl && !shift && key == TermKey::C {
        ActionView::Write(seq![3u8])
    } else if key == TermKey::PageUp {
        ActionView::Scroll(screen_lines)
    } else if key == TermKey::PageDown {
        ActionView::Scroll(-screen_lines)
    } else {
        match key_sequence(key, shift) {
            Some(s) => ActionView::Write(s),
            None => ActionView::Ignore,
        }
    }
}

fn bytes_of(s: &[u8]) -> (v: Vec<u8>)
    ensures
        v@ == s@,
{
    vstd::slice::slice_to_vec(s)
}

fn seq3(a: u8, b: u8, c: u8) -> (v: Vec<u8>)
    ensures
        v@ == seq![a, b, c],
{
    let mut v: Vec<u8> = Vec::new();
    v.push(a);
    v.push(b);
    v.push(c);
    v
}

fn seq4(a: u8, b: u8, c: u8, d: u8) -> (v: Vec<u8>)
    ensures
        v@ == seq![a, b, c, d],
{
    let mut v = seq3(a, b, c);
    v.push(d);
    v
}

fn seq1(a: u8) -> (v: Vec<u8>)
    ensures
        v@ == seq![a],
{
    let mut v: Vec<u8> = Vec::new();
    v.push(a);
    v
}

/// What a pressed key does in the widget. `screen_lines` is the height of
/// the view.
pub fn key_action(key: TermKey, ctrl: bool, shift: bool, screen_lines: usize) -> (a: TermAction)
    requires
        screen_lines <= i32::MAX,
    ensures
        action_view(a) == key_action_spec(key, ctrl, shift, screen_lines as int),
{
    if ctrl && shift {
        match key {
            TermKey::C => {
                return TermAction::CopySelection;
            },
            TermKey::V => {
                return TermAction::Paste;
            },
            TermKey::F => {
                return TermAction::OpenSearch;
            },
            _ => {},
        }
    }
    if ctrl && !shift {
        match key {
            TermKey::L => {
                let mut v = seq4(0x1b, 0x5b, 0x32, 0x4a);
                v.push(0x1b);
                v.push(0x5b);
                v.push(0x48);
                assert(v@ =~= clear_screen());
                return TermAction::WriteAndEcho(v);
            },
            TermKey::C => {
                return TermAction::Write(seq1(3));
            },
            _ => {},
        }
    }
    let lines = screen_lines as i32;
    match key {
        TermKey::Enter => TermAction::Write(seq1(13)),
        TermKey::Backspace => TermAction::Write(seq1(0x7f)),
        TermKey::Tab => if shift {
            TermAction::Write(seq3(0x1b, 0x5b, 0x5a))
        } else {
            TermAction::Write(seq1(9))
        },
        TermKey::Escape => TermAction::Write(seq1(0x1b)),
        TermKey::ArrowUp => TermAction::Write(seq3(0x1b, 0x5b, 0x41)),
        TermKey::ArrowDown => TermAction::Write(seq3(0x1b, 0x5b, 0x42)),
        TermKey::ArrowRight => TermAction::Write(seq3(0x1b, 0x5b, 0x43)),
        TermKey::ArrowLeft => TermAction::Write(seq3(0x1b, 0x5b, 0x44)),
        TermKey::Home => TermAction::Write(seq3(0x1b, 0x5b, 0x48)),
        TermKey::End => TermAction::Write(seq3(0x1b, 0x5b, 0x46)),
        TermKey::Delete => TermAction::Write(seq4(0x1b, 0x5b, 0x33, 0x7e)),
        TermKey::Insert => TermAction::Write(seq4(0x1b, 0x5b, 0x32, 0x7e)),
        TermKey::PageUp => TermAction::Scroll(lines),
        TermKey::PageDown => TermAction::Scroll(-lines),
        _ => TermAction::Ignore,
    }
}

/// An input event of the terminal widget.
#[derive(Debug, Clone, PartialEq, Eq)]
pub enum TermInput {
    /// Typed text.
    Text(String),
    /// A key went down or up.
    Key { key: TermKey, pressed: bool, ctrl: bool, shift: bool },
    /// The copy shortcut.
    Copy,
    /// Pasted text.
    Paste(String),
}

/// What an input does: text and paste go to the shell when the widget has
/// focus; a key acts only when pressed with focus; copy copies a selection,
/// or else interrupts the shell when focused.
pub open spec fn input_action_spec(
    input: TermInput,
    focused: bool,
    have_selection: bool,
    screen_lines: int,
) -> ActionView {
    match input {
        TermInput::Text(t) => if focused {
            ActionView::Write(encode_utf8(t@))
        } else {
            ActionView::Ignore
        },
        TermInput::Key { key, pressed, ctrl, shift } => if pressed && focused {
            key_action_spec(key, ctrl, shift, screen_lines)
        } else {
            ActionView::Ignore
        },
        TermInput::Copy => if have_selection {
            ActionView::CopySelection
        } else if focused {
            ActionView::Write(seq![3u8])
        } else {
            ActionView::Ignore
        },
        TermInput::Paste(t) => if focused {
            ActionView::Write(encode_utf8(t@))
        } else {
            ActionView::Ignore
        },
    }
}

/// What an input event does in the widget.
pub fn input_action(input: &TermInput, focused: bool, have_selection: bool, screen_lines: usize) -> (a:
    TermAction)
    requires
        screen_lines <= i32::MAX,
    ensures
        action_view(a) == input_action_spec(*input, focused, have_selection, screen_lines as int),
{
    match input {
        TermInput::Text(t) => if focused {
            TermAction::Write(bytes_of(t.as_str().as_bytes()))
        } else {
            TermAction::Ignore
        },
        TermInput::Key { key, pressed, ctrl, shift } => if *pressed && focused {
            key_action(*key, *ctrl, *shift, screen_lines)
        } else {
            TermAction::Ignore
        },
        TermInput::Copy => if have_selection {
            TermAction::CopySelection
        } else if focused {
            TermAction::Write(seq1(3))
        } else {
            TermAction::Ignore
        },
        TermInput::Paste(t) => if focused {
            TermAction::Write(bytes_of(t.as_str().as_bytes()))
        } else {
            TermAction::Ignore
        },
    }
}

/// How far to scroll up so that a match on `line` (negative lines are in the
/// scrollback) becomes visible when the view is `display_offset` lines into
/// the scrollback; `None` when it already is.
pub fn scroll_for_match(line: i32, display_offset: usize) -> (r: Option<i32>)
    requires
        display_offset <= i32::MAX,
        line >= i32::MIN + 1,
        -(line as int) - (display_offset as int) + 1 <= i32::MAX,
    ensures
        line < -(display_offset as int) ==> r == Some((-(display_offset as int) - line + 1) as i32),
        line >= -(display_offset as int) ==> r is None,
{
    let top = -(display_offset as i32);
    if line < top {
        Some(top - line + 1)
    } else {
        None
    }
}

} // verus!

verus! {

/// The arrow keys send the standard cursor sequences, whatever the
/// modifiers and screen size: Up `ESC [ A`, Down `ESC [ B`, Right
/// `ESC [ C`, Left `ESC [ D`.
pub proof fn lemma_arrow_keys_send_cursor_sequences(ctrl: bool, shift: bool, screen_lines: int)
    ensures
        key_action_spec(TermKey::ArrowUp, ctrl, shift, screen_lines) == ActionView::Write(
            seq![0x1bu8, '[' as u8, 'A' as u8],
        ),
        key_action_spec(TermKey::ArrowDown, ctrl, shift, screen_lines) == ActionView::Write(
            seq![0x1bu8, '[' as u8, 'B' as u8],
        ),
        key_action_spec(TermKey::ArrowRight, ctrl, shift, screen_lines) == ActionView::Write(
            seq![0x1bu8, '[' as u8, 'C' as u8],
        ),
        key_action_spec(TermKey::ArrowLeft, ctrl, shift, screen_lines) == ActionView::Write(
            seq![0x1bu8, '[' as u8, 'D' as u8],
        ),
{
}

} // verus!
