//! The process supervisor.
//!
//! The supervisor owns an ordered set of child-process handles, named by
//! caller-chosen ids. A batch launch hands it the ids of the children
//! that were started; on every timer tick the caller checks each child
//! without blocking and hands the outcomes back. The supervisor removes
//! every handle whose child has finished (or whose check failed), keeps
//! a sticky failure flag for the batch, and says when polling may stop.
//! The machine has two phases: idle (set empty) and running (set
//! non-empty); it leaves running only when a poll drains the set.

use vstd::prelude::*;

verus! {

/// What one non-blocking status check observed.
#[derive(Clone, Copy, Debug, PartialEq, Eq, Structural)]
pub enum PollEvent {
    /// The child has not finished; it stays in the set.
    StillRunning,
    /// The child exited successfully.
    ExitedOk,
    /// The child exited with a non-zero status.
    ExitedErr,
    /// The status check itself failed at the OS level.
    WaitFailed,
}

/// The event leaves its handle in the set.
pub open spec fn keeps(e: PollEvent) -> bool {
    e is StillRunning
}

/// The event marks the batch as failed.
pub open spec fn fails(e: PollEvent) -> bool {
    e is ExitedErr || e is WaitFailed
}

/// The handles a poll cycle keeps: those whose event is `StillRunning`,
/// in their original order.
pub open spec fn retained(handles: Seq<u64>, events: Seq<PollEvent>) -> Seq<u64>
    decreases handles.len(),
{
    if handles.len() == 0 {
        Seq::empty()
    } else {
        let init = retained(handles.drop_last(), events.take(handles.len() - 1));
        if keeps(events[handles.len() - 1]) {
            init + seq![handles.last()]
        } else {
            init
        }
    }
}

/// Some event of the cycle marks a failure.
pub open spec fn any_failure(events: Seq<PollEvent>) -> bool {
    exists|i: int| 0 <= i < events.len() && fails(#[trigger] events[i])
}

/// How many status checks of the cycle failed at the OS level; the
/// caller owes one error dialog per such check.
pub open spec fn os_failures(events: Seq<PollEvent>) -> int
    decreases events.len(),
{
    if events.len() == 0 {
        0int
    } else {
        os_failures(events.drop_last()) + if events.last() is WaitFailed {
            1int
        } else {
            0int
        }
    }
}

/// What one poll cycle tells the caller.
pub struct PollReport {
    /// The set drained: polling may stop and the batch outcome stands.
    pub finished: bool,
    /// Some child of the batch has failed so far.
    pub any_failed: bool,
    /// Status checks that failed at the OS level this cycle, one dialog each.
    pub os_failures: usize,
}

/// The ordered set of running children of the current batch, with the
/// batch's sticky failure flag.
pub struct Supervisor {
    /// Ids of the children still running, in launch order.
    pub handles: Vec<u64>,
    /// Whether any child of the batch has failed so far.
    pub any_failed: bool,
}

impl Supervisor {
    /// The supervisor is idle: no batch is being watched.
    pub open spec fn is_idle(&self) -> bool {
        self.handles@.len() == 0
    }

    /// An idle supervisor with nothing recorded.
    pub fn new() -> (r: Supervisor)
        ensures
            r.handles@ == Seq::<u64>::empty(),
            !r.any_failed,
            r.is_idle(),
    {
        Supervisor { handles: Vec::new(), any_failed: false }
    }

    /// Adopt a freshly launched batch. Returns whether the poll timer
    /// must start: it does exactly when some child was started.
    pub fn begin_batch(&mut self, handles: Vec<u64>) -> (start_timer: bool)
        ensures
            final(self).handles@ == handles@,
            !final(self).any_failed,
            start_timer == !final(self).is_idle(),
    {
        let start_timer = handles.len() > 0;
        self.handles = handles;
        self.any_failed = false;
        start_timer
    }

    /// One poll cycle. `events` holds one observation per handle, in the
    /// set's order. Every handle whose child finished or whose check
    /// failed leaves the set; the failure flag sticks for the batch; the
    /// report says whether the set drained and how many dialogs the
    /// caller owes.
    pub fn poll(&mut self, events: &Vec<PollEvent>) -> (r: PollReport)
        requires
            events@.len() == old(self).handles@.len(),
        ensures
            final(self).handles@ == retained(old(self).handles@, events@),
            final(self).any_failed == (old(self).any_failed || any_failure(events@)),
            r.any_failed == final(self).any_failed,
            r.finished == final(self).is_idle(),
            r.os_failures == os_failures(events@),
    {
        let n: usize = self.handles.len();
        let mut kept: Vec<u64> = Vec::new();
        let mut failed: bool = false;
        let mut dialogs: usize = 0;
        let mut i: usize = 0;
        proof {
            assert(self.handles@.take(0) =~= Seq::<u64>::empty());
            assert(events@.take(0) =~= Seq::<PollEvent>::empty());
        }
        while i < n
            invariant
                i <= n == self.handles@.len() == events@.len() <= usize::MAX,
                kept@ == retained(self.handles@.take(i as int), events@.take(i as int)),
                failed == any_failure(events@.take(i as int)),
                dialogs == os_failures(events@.take(i as int)),
                dialogs <= i,
            decreases n - i,
        {
            let ghost h0 = self.handles@.take(i as int);
            let ghost e0 = events@.take(i as int);
            let ghost h1 = self.handles@.take(i + 1);
            let ghost e1 = events@.take(i + 1);
            proof {
                assert(h1.drop_last() =~= h0);
                assert(e1.take(h1.len() - 1) =~= e0);
                assert(e1.drop_last() =~= e0);
                assert(h1.last() == self.handles@[i as int]);
                assert(e1[h1.len() - 1] == events@[i as int]);
            }
            match events[i] {
                PollEvent::StillRunning => {
                    kept.push(self.handles[i]);
                },
                PollEvent::ExitedOk => {
                },
                PollEvent::ExitedErr => {
                    failed = true;
                },
                PollEvent::WaitFailed => {
                    failed = true;
                    dialogs = dialogs + 1;
                },
            }
            i = i + 1;
            proof {
                if keeps(events@[i - 1]) {
                    assert(kept@ =~= retained(h1, e1));
                } else {
                    assert(kept@ =~= retained(h1, e1));
                }
                assert(any_failure(e1) == (any_failure(e0) || fails(events@[i - 1]))) by {
                    if any_failure(e0) {
                        let k = choose|k: int| 0 <= k < e0.len() && fails(e0[k]);
                        assert(fails(e1[k]));
                    }
                    if fails(events@[i - 1]) {
                        assert(fails(e1[i - 1]));
                    }
                    if any_failure(e1) {
                        let k = choose|k: int| 0 <= k < e1.len() && fails(e1[k]);
                        if k < i - 1 {
                            assert(fails(e0[k]));
                        }
                    }
                }
            }
        }
        proof {
            assert(self.handles@.take(n as int) =~= self.handles@);
            assert(events@.take(n as int) =~= events@);
        }
        let finished = kept.len() == 0;
        let any_failed = self.any_failed || failed;
        self.handles = kept;
        self.any_failed = any_failed;
        PollReport { finished, any_failed, os_failures: dialogs }
    }
}

/// Polling an already-empty set is a no-op: nothing is kept because
/// nothing was there, no failure is seen, and no dialog is owed. With
/// the poll contract this makes an idle supervisor a fixed point.
pub proof fn lemma_poll_empty_noop(handles: Seq<u64>, events: Seq<PollEvent>)
    requires
        handles.len() == 0,
        events.len() == 0,
    ensures
        retained(handles, events) == Seq::<u64>::empty(),
        !any_failure(events),
        os_failures(events) == 0,
{
}

} // verus!
