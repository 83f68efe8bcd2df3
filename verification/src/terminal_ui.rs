//! The terminal surface's controller logic: the events a PTY or SSH worker
//! delivers, the commands sent back, and the status shown.

use vstd::prelude::*;
use vstd::string::*;

use crate::text::push_str;

verus! {

/// Events delivered by a PTY or SSH worker to the terminal surface.
#[derive(Debug, PartialEq, Eq)]
pub enum TerminalEvent {
    Connecting,
    Connected,
    Output(Vec<u8>),
    Error(String),
    Closed,
}

/// Commands sent from the terminal surface to its worker.
#[derive(Debug, PartialEq, Eq)]
pub enum TerminalCommand {
    Input(Vec<u8>),
    Resize(u16, u16),
    Close,
}

/// The state shown for a terminal surface.
#[derive(Debug, Clone, PartialEq, Eq)]
pub enum TerminalStatus {
    Starting,
    Ready,
    Error(String),
    Closed,
}

/// The value of a status.
pub enum StatusView {
    Starting,
    Ready,
    Error(Seq<char>),
    Closed,
}

/// The value of a status.
pub open spec fn status_view(s: TerminalStatus) -> StatusView {
    match s {
        TerminalStatus::Starting => StatusView::Starting,
        TerminalStatus::Ready => StatusView::Ready,
        TerminalStatus::Error(m) => StatusView::Error(m@),
        TerminalStatus::Closed => StatusView::Closed,
    }
}

/// The status an event leaves the surface in: connecting is starting,
/// connected and output are ready, an error and a close are shown as such.
pub open spec fn event_status(e: TerminalEvent) -> StatusView {
    match e {
        TerminalEvent::Connecting => StatusView::Starting,
        TerminalEvent::Connected => StatusView::Ready,
        TerminalEvent::Output(_) => StatusView::Ready,
        TerminalEvent::Error(m) => StatusView::Error(m@),
        TerminalEvent::Closed => StatusView::Closed,
    }
}

/// The status after draining `events`: the last event decides it; with no
/// event the status stays.
pub open spec fn pumped_status(s: StatusView, events: Seq<TerminalEvent>) -> StatusView {
    if events.len() == 0 {
        s
    } else {
        event_status(events.last())
    }
}

/// The output bytes of `events`, one chunk per output event, in the order
/// they arrived.
pub open spec fn outputs(events: Seq<TerminalEvent>) -> Seq<Seq<u8>>
    decreases events.len(),
{
    if events.len() == 0 {
        Seq::empty()
    } else {
        let rest = outputs(events.drop_last());
        match events.last() {
            TerminalEvent::Output(b) => rest.push(b@),
            _ => rest,
        }
    }
}

/// The views of a list of byte chunks.
pub open spec fn chunk_views(v: Seq<Vec<u8>>) -> Seq<Seq<u8>> {
    v.map_values(|c: Vec<u8>| c@)
}

/// Drains a batch of events: updates the status, hands back the output
/// chunks in arrival order, and says whether anything changed (any event
/// arrived).
pub fn pump_events(status: &mut TerminalStatus, events: Vec<TerminalEvent>) -> (r: (
    bool,
    Vec<Vec<u8>>,
))
    ensures
        status_view(*final(status)) == pumped_status(status_view(*old(status)), events@),
        r.0 == (events@.len() > 0),
        chunk_views(r.1@) == outputs(events@),
{
    let ghost all = events@;
    let mut out: Vec<Vec<u8>> = Vec::new();
    let mut changed = false;
    proof {
        broadcast use vstd::std_specs::vec::axiom_spec_into_iter;
    }
    for e in it: events.into_iter()
        invariant
            it.seq() == all,
            changed == (it.index() > 0),
            status_view(*status) == pumped_status(
                status_view(*old(status)),
                all.take(it.index() as int),
            ),
            chunk_views(out@) == outputs(all.take(it.index() as int)),
    {
        let ghost i = it.index() as int;
        proof {
            assert(all.take(i + 1).drop_last() =~= all.take(i));
            assert(all.take(i + 1).last() == e);
        }
        match e {
            TerminalEvent::Connecting => {
                *status = TerminalStatus::Starting;
            },
            TerminalEvent::Connected => {
                *status = TerminalStatus::Ready;
            },
            TerminalEvent::Output(bytes) => {
                *status = TerminalStatus::Ready;
                out.push(bytes);
                proof {
                    assert(chunk_views(out@) =~= outputs(all.take(i + 1)));
                }
            },
            TerminalEvent::Error(m) => {
                *status = TerminalStatus::Error(m);
            },
            TerminalEvent::Closed => {
                *status = TerminalStatus::Closed;
            },
        }
        changed = true;
    }
    proof {
        assert(all.take(all.len() as int) =~= all);
    }
    (changed, out)
}

/// Draining two batches one after the other leaves the same status and hands
/// out the same output, in the same order, as draining them as one batch.
pub proof fn lemma_pump_batches_compose(s: StatusView, a: Seq<TerminalEvent>, b: Seq<TerminalEvent>)
    ensures
        pumped_status(pumped_status(s, a), b) == pumped_status(s, a + b),
        outputs(a) + outputs(b) == outputs(a + b),
    decreases b.len(),
{
    if b.len() == 0 {
        assert(a + b =~= a);
        assert(outputs(a) + outputs(b) =~= outputs(a));
    } else {
        lemma_pump_batches_compose(s, a, b.drop_last());
        assert((a + b).drop_last() =~= a + b.drop_last());
        assert((a + b).last() == b.last());
        match b.last() {
            TerminalEvent::Output(x) => {
                assert(outputs(a) + outputs(b) =~= (outputs(a) + outputs(b.drop_last())).push(x@));
            },
            _ => {
                assert(outputs(a) + outputs(b) =~= outputs(a) + outputs(b.drop_last()));
            },
        }
    }
}

/// The text shown for a status.
pub open spec fn status_text_spec(s: StatusView) -> Seq<char> {
    match s {
        StatusView::Starting => "Starting"@,
        StatusView::Ready => "Ready"@,
        StatusView::Error(e) => "Error: "@ + e,
        StatusView::Closed => "Closed"@,
    }
}

/// The text shown for a status.
pub fn status_text(status: &TerminalStatus) -> (t: String)
    ensures
        t@ == status_text_spec(status_view(*status)),
{
    match status {
        TerminalStatus::Starting => String::from_str("Starting"),
        TerminalStatus::Ready => String::from_str("Ready"),
        TerminalStatus::Error(e) => {
            let mut t = String::from_str("Error: ");
            push_str(&mut t, e.as_str());
            t
        },
        TerminalStatus::Closed => String::from_str("Closed"),
    }
}

/// The command a resize of the surface sends.
pub fn resize_command(columns: u16, rows: u16) -> (c: TerminalCommand)
    ensures
        c == TerminalCommand::Resize(columns, rows),
{
    TerminalCommand::Resize(columns, rows)
}

} // verus!
