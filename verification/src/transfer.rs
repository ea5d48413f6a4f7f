//! Exact-length transfer accounting. The framed protocol always knows the
//! exact byte count that follows a header, so every socket read and write is
//! driven to completion: a transfer tracks how many bytes of a known total
//! have moved, and classifies each raw I/O outcome the way the transport
//! requires (end of stream is a connection reset, `WouldBlock` is a retry,
//! any other failure is fatal for the call).

use vstd::prelude::*;

verus! {

/// The outcome of one raw read or write attempt, as plain values.
#[derive(Clone, Debug, PartialEq, Eq, Structural)]
pub enum IoOutcome {
    /// The peer is done: zero bytes moved.
    End,
    /// This many bytes moved (always at least one).
    Moved(usize),
    /// The readiness event was a false positive; try again.
    Interrupted,
    /// The socket failed for good.
    Failed,
}

/// What the caller of `step` must do next.
#[derive(Clone, Debug, PartialEq, Eq, Structural)]
pub enum StepVerdict {
    /// Every byte of the transfer has moved.
    Done,
    /// Bytes are still owed; attempt more I/O.
    More,
    /// Nothing happened; attempt the same I/O again.
    Retry,
    /// The peer closed mid-transfer: fail with a connection reset.
    Reset,
    /// The socket failed: surface its error.
    Abort,
}

/// One exact-length transfer: `done` of `total` bytes have moved.
pub struct Transfer {
    total: usize,
    done: usize,
}

impl Transfer {
    /// How many bytes this transfer moves in all.
    pub closed spec fn spec_total(self) -> int {
        self.total as int
    }

    /// How many bytes have moved so far.
    pub closed spec fn spec_done(self) -> int {
        self.done as int
    }

    /// A transfer never moves more than its total.
    pub open spec fn wf(self) -> bool {
        0 <= self.spec_done() <= self.spec_total()
    }

    /// Starts a transfer of exactly `total` bytes.
    pub fn new(total: usize) -> (r: Transfer)
        ensures
            r.spec_total() == total,
            r.spec_done() == 0,
            r.wf(),
    {
        Transfer { total, done: 0 }
    }

    /// How many bytes are still owed.
    pub fn remaining(&self) -> (r: usize)
        requires
            self.wf(),
        ensures
            r == self.spec_total() - self.spec_done(),
    {
        self.total - self.done
    }

    /// Accounts for one raw I/O outcome. Progress is counted; end of stream
    /// mid-transfer means the connection was reset; an interruption asks for
    /// a retry; a failure aborts. The transfer is complete exactly when the
    /// moved bytes reach the total.
    pub fn step(&mut self, outcome: IoOutcome) -> (r: StepVerdict)
        requires
            old(self).wf(),
            outcome matches IoOutcome::Moved(n) ==> 1 <= n <= old(self).spec_total() - old(
                self,
            ).spec_done(),
        ensures
            final(self).wf(),
            final(self).spec_total() == old(self).spec_total(),
            match outcome {
                IoOutcome::Moved(n) => {
                    &&& final(self).spec_done() == old(self).spec_done() + n
                    &&& r == (if final(self).spec_done() == final(self).spec_total() {
                        StepVerdict::Done
                    } else {
                        StepVerdict::More
                    })
                },
                IoOutcome::End => *final(self) == *old(self) && r == StepVerdict::Reset,
                IoOutcome::Interrupted => *final(self) == *old(self) && r == StepVerdict::Retry,
                IoOutcome::Failed => *final(self) == *old(self) && r == StepVerdict::Abort,
            },
    {
        match outcome {
            IoOutcome::End => StepVerdict::Reset,
            IoOutcome::Moved(n) => {
                self.done = self.done + n;
                if self.done == self.total {
                    StepVerdict::Done
                } else {
                    StepVerdict::More
                }
            },
            IoOutcome::Interrupted => StepVerdict::Retry,
            IoOutcome::Failed => StepVerdict::Abort,
        }
    }
}

} // verus!
