//! An instrumented session transport for exercising the terminal widget:
//! it replays queued output in order and records every write, resize,
//! close and restart it receives.

use std::collections::VecDeque;
use vstd::prelude::*;

use crate::native_terminal::{SessionEvent, SessionState};

verus! {

broadcast use vstd::std_specs::vecdeque::group_vec_dequeue_axioms;

/// Whether `event` is an output chunk holding exactly `bytes`.
pub open spec fn carries_output(event: SessionEvent, bytes: Seq<u8>) -> bool {
    match event {
        SessionEvent::Output(chunk) => chunk@ == bytes,
        _ => false,
    }
}

/// Whether two outcomes agree: both `Ok`, or both `Err` with the same text.
pub open spec fn same_outcome(a: Result<(), String>, b: Result<(), String>) -> bool {
    match (a, b) {
        (Ok(_), Ok(_)) => true,
        (Err(x), Err(y)) => x@ == y@,
        _ => false,
    }
}

/// A deterministic transport: `events` is replayed by `try_recv`, and the
/// other fields record what the widget sent.
pub struct NullTransport {
    /// Output events to replay, oldest first.
    pub events: VecDeque<SessionEvent>,
    /// Bytes received through `write`, concatenated.
    pub written: Vec<u8>,
    /// All `(cols, rows)` resizes received.
    pub resizes: Vec<(u16, u16)>,
    /// Number of `close` calls.
    pub close_count: usize,
    /// Number of `restart` calls.
    pub restart_count: usize,
    /// Current lifecycle state.
    pub state: SessionState,
    /// What `restart` reports.
    pub restart_result: Result<(), String>,
}

impl NullTransport {
    /// A running transport with nothing queued and nothing recorded.
    pub fn new() -> (t: Self)
        ensures
            t.events@ == Seq::<SessionEvent>::empty(),
            t.written@ == Seq::<u8>::empty(),
            t.resizes@ == Seq::<(u16, u16)>::empty(),
            t.close_count == 0,
            t.restart_count == 0,
            t.state == SessionState::Running,
            t.restart_result is Ok,
    {
        NullTransport {
            events: VecDeque::new(),
            written: Vec::new(),
            resizes: Vec::new(),
            close_count: 0,
            restart_count: 0,
            state: SessionState::Running,
            restart_result: Ok(()),
        }
    }

    /// Queues `bytes` as one output event behind those already queued.
    pub fn push_output(&mut self, bytes: &[u8])
        ensures
            final(self).events@.len() == old(self).events@.len() + 1,
            final(self).events@.drop_last() == old(self).events@,
            carries_output(final(self).events@.last(), bytes@),
            final(self).written@ == old(self).written@,
            final(self).resizes@ == old(self).resizes@,
            final(self).close_count == old(self).close_count,
            final(self).restart_count == old(self).restart_count,
            final(self).state == old(self).state,
            final(self).restart_result == old(self).restart_result,
    {
        let chunk = vstd::slice::slice_to_vec(bytes);
        self.events.push_back(SessionEvent::Output(chunk));
    }

    /// Records keyboard input; always succeeds.
    pub fn write(&mut self, bytes: &[u8]) -> (r: Result<(), String>)
        ensures
            r is Ok,
            final(self).written@ == old(self).written@ + bytes@,
            final(self).events@ == old(self).events@,
            final(self).resizes@ == old(self).resizes@,
            final(self).close_count == old(self).close_count,
            final(self).restart_count == old(self).restart_count,
            final(self).state == old(self).state,
            final(self).restart_result == old(self).restart_result,
    {
        let ghost start = self.written@;
        let mut i: usize = 0;
        while i < bytes.len()
            invariant
                i <= bytes@.len(),
                self.written@ == start + bytes@.subrange(0, i as int),
                self.events@ == old(self).events@,
                self.resizes@ == old(self).resizes@,
                self.close_count == old(self).close_count,
                self.restart_count == old(self).restart_count,
                self.state == old(self).state,
                self.restart_result == old(self).restart_result,
            decreases bytes@.len() - i,
        {
            self.written.push(bytes[i]);
            i = i + 1;
            assert(self.written@ == start + bytes@.subrange(0, i as int));
        }
        assert(bytes@.subrange(0, bytes@.len() as int) == bytes@);
        Ok(())
    }

    /// Records a resize; always succeeds.
    pub fn resize(&mut self, cols: u16, rows: u16) -> (r: Result<(), String>)
        ensures
            r is Ok,
            final(self).resizes@ == old(self).resizes@.push((cols, rows)),
            final(self).events@ == old(self).events@,
            final(self).written@ == old(self).written@,
            final(self).close_count == old(self).close_count,
            final(self).restart_count == old(self).restart_count,
            final(self).state == old(self).state,
            final(self).restart_result == old(self).restart_result,
    {
        self.resizes.push((cols, rows));
        Ok(())
    }

    /// Takes the oldest queued event, if any.
    pub fn try_recv(&mut self) -> (e: Option<SessionEvent>)
        ensures
            old(self).events@.len() == 0 ==> e is None && final(self).events@ == old(self).events@,
            old(self).events@.len() > 0 ==> e == Some(old(self).events@[0])
                && final(self).events@ == old(self).events@.drop_first(),
            final(self).written@ == old(self).written@,
            final(self).resizes@ == old(self).resizes@,
            final(self).close_count == old(self).close_count,
            final(self).restart_count == old(self).restart_count,
            final(self).state == old(self).state,
            final(self).restart_result == old(self).restart_result,
    {
        self.events.pop_front()
    }

    /// The current lifecycle state.
    pub fn current_state(&self) -> (s: SessionState)
        ensures
            s == self.state,
    {
        self.state
    }

    /// Counts a close and marks the session closed.
    pub fn close(&mut self)
        requires
            old(self).close_count < usize::MAX,
        ensures
            final(self).close_count == old(self).close_count + 1,
            final(self).state == SessionState::Closed,
            final(self).events@ == old(self).events@,
            final(self).written@ == old(self).written@,
            final(self).resizes@ == old(self).resizes@,
            final(self).restart_count == old(self).restart_count,
            final(self).restart_result == old(self).restart_result,
    {
        self.close_count = self.close_count + 1;
        self.state = SessionState::Closed;
    }

    /// Counts a restart, marks the session running and reports the
    /// configured result.
    pub fn restart(&mut self) -> (r: Result<(), String>)
        requires
            old(self).restart_count < usize::MAX,
        ensures
            same_outcome(r, old(self).restart_result),
            final(self).restart_count == old(self).restart_count + 1,
            final(self).state == SessionState::Running,
            final(self).events@ == old(self).events@,
            final(self).written@ == old(self).written@,
            final(self).resizes@ == old(self).resizes@,
            final(self).close_count == old(self).close_count,
            final(self).restart_result == old(self).restart_result,
    {
        self.restart_count = self.restart_count + 1;
        self.state = SessionState::Running;
        match &self.restart_result {
            Ok(()) => Ok(()),
            Err(message) => Err(message.clone()),
        }
    }
}

/// Output is replayed first in, first out: when chunk `a` and then chunk
/// `b` are pushed behind a queue, receiving drains the earlier events
/// unchanged, then yields `a`, then `b`.
pub proof fn lemma_output_replayed_in_order(
    queue: Seq<SessionEvent>,
    after_a: Seq<SessionEvent>,
    after_b: Seq<SessionEvent>,
    a: Seq<u8>,
    b: Seq<u8>,
)
    requires
        after_a.len() == queue.len() + 1,
        after_a.drop_last() == queue,
        carries_output(after_a.last(), a),
        after_b.len() == after_a.len() + 1,
        after_b.drop_last() == after_a,
        carries_output(after_b.last(), b),
    ensures
        forall|i: int| 0 <= i < queue.len() ==> #[trigger] after_b[i] == queue[i],
        carries_output(after_b.skip(queue.len() as int)[0], a),
        carries_output(after_b.skip(queue.len() as int).drop_first()[0], b),
        after_b.skip(queue.len() as int).drop_first().drop_first().len() == 0,
{
    assert forall|i: int| 0 <= i < queue.len() implies #[trigger] after_b[i] == queue[i] by {
        assert(after_b.drop_last()[i] == after_b[i]);
        assert(after_a.drop_last()[i] == after_a[i]);
    }
    assert(after_b[queue.len() as int] == after_a[queue.len() as int]) by {
        assert(after_b.drop_last()[queue.len() as int] == after_b[queue.len() as int]);
    }
}

} // verus!
