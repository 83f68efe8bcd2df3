//! The decisions of the worker behind an SSH terminal surface: what a
//! reconnect request, typed input, a resize, or closing the surface does,
//! depending on whether a connection is open, and which event reports the
//! outcome of connecting, writing or resizing.

use vstd::prelude::*;
use vstd::string::*;

use crate::error::AppError;
use crate::ssh_errors::{map_ssh_error, ssh_error_text};
use crate::ssh_options::ConnectionOptions;
use crate::terminal_ui::TerminalEvent;

verus! {

/// What reaches the worker in one turn of its loop.
#[derive(Debug)]
pub enum WorkerInput {
    /// Connect again with these options.
    Reconnect(ConnectionOptions),
    /// Bytes typed into the surface.
    Input(Vec<u8>),
    /// The surface's new size in columns and rows.
    Resize(u16, u16),
    /// The surface asked to close.
    Close,
    /// The surface went away: no more commands can come.
    CommandsGone,
    /// Nothing arrived in time.
    Idle,
}

/// What the worker does, in order.
#[derive(Debug)]
pub enum WorkerAction {
    /// Stop reading and end the open connection with this reason.
    Disconnect(String),
    /// Open a connection with these options.
    Connect(ConnectionOptions),
    /// Send these bytes to the remote shell.
    Write(Vec<u8>),
    /// Tell the remote shell its window is now this many columns and rows.
    WindowChange(u32, u32),
    /// Report this event to the surface.
    Emit(TerminalEvent),
    /// End the worker.
    Stop,
}

/// Whether `a` ends the connection with the reason `reason`.
pub open spec fn is_disconnect(a: WorkerAction, reason: Seq<char>) -> bool {
    a matches WorkerAction::Disconnect(m) && m@ == reason
}

/// The actions of one turn: a reconnect ends an open connection
/// ("reconnecting"), reports connecting and connects; input and resizes
/// reach the shell only while connected; closing (or losing the surface)
/// ends an open connection ("closed"), reports the close and stops; an idle
/// turn does nothing.
pub open spec fn worker_turn(connected: bool, input: WorkerInput, r: Seq<WorkerAction>) -> bool {
    match input {
        WorkerInput::Reconnect(o) => if connected {
            &&& r.len() == 3
            &&& is_disconnect(r[0], "reconnecting"@)
            &&& r[1] == WorkerAction::Emit(TerminalEvent::Connecting)
            &&& r[2] == WorkerAction::Connect(o)
        } else {
            &&& r.len() == 2
            &&& r[0] == WorkerAction::Emit(TerminalEvent::Connecting)
            &&& r[1] == WorkerAction::Connect(o)
        },
        WorkerInput::Input(b) => if connected {
            r.len() == 1 && r[0] == WorkerAction::Write(b)
        } else {
            r.len() == 0
        },
        WorkerInput::Resize(c, w) => if connected {
            r.len() == 1 && r[0] == WorkerAction::WindowChange(c as u32, w as u32)
        } else {
            r.len() == 0
        },
        WorkerInput::Close | WorkerInput::CommandsGone => if connected {
            &&& r.len() == 3
            &&& is_disconnect(r[0], "closed"@)
            &&& r[1] == WorkerAction::Emit(TerminalEvent::Closed)
            &&& r[2] == WorkerAction::Stop
        } else {
            &&& r.len() == 2
            &&& r[0] == WorkerAction::Emit(TerminalEvent::Closed)
            &&& r[1] == WorkerAction::Stop
        },
        WorkerInput::Idle => r.len() == 0,
    }
}

/// One turn of the SSH worker: the actions for `input`, given whether a
/// connection is open. The worker starts as a reconnect while not
/// connected.
pub fn ssh_worker_step(connected: bool, input: WorkerInput) -> (r: Vec<WorkerAction>)
    ensures
        worker_turn(connected, input, r@),
{
    let mut r: Vec<WorkerAction> = Vec::new();
    match input {
        WorkerInput::Reconnect(o) => {
            if connected {
                r.push(WorkerAction::Disconnect(String::from_str("reconnecting")));
            }
            r.push(WorkerAction::Emit(TerminalEvent::Connecting));
            r.push(WorkerAction::Connect(o));
        },
        WorkerInput::Input(b) => {
            if connected {
                r.push(WorkerAction::Write(b));
            }
        },
        WorkerInput::Resize(c, w) => {
            if connected {
                r.push(WorkerAction::WindowChange(c as u32, w as u32));
            }
        },
        WorkerInput::Close | WorkerInput::CommandsGone => {
            if connected {
                r.push(WorkerAction::Disconnect(String::from_str("closed")));
            }
            r.push(WorkerAction::Emit(TerminalEvent::Closed));
            r.push(WorkerAction::Stop);
        },
        WorkerInput::Idle => {},
    }
    r
}

/// The event that reports a connection attempt: connected, or the error
/// text of the failure.
pub fn connect_outcome_event(outcome: Result<(), AppError>) -> (e: TerminalEvent)
    ensures
        match outcome {
            Ok(()) => e == TerminalEvent::Connected,
            Err(error) => e matches TerminalEvent::Error(m) && m@ == ssh_error_text(error),
        },
{
    match outcome {
        Ok(()) => TerminalEvent::Connected,
        Err(error) => TerminalEvent::Error(map_ssh_error(error)),
    }
}

/// The event that reports a write or resize the connection refused: an
/// error carrying the failure's message.
pub fn io_failure_event(message: String) -> (e: TerminalEvent)
    ensures
        e matches TerminalEvent::Error(m) && m@ == message@,
{
    TerminalEvent::Error(message)
}

} // verus!
