//! The bookkeeping of a streamed average: it reads an inbound sequence to its
//! end and decides what single result the call has. The caller keeps the
//! running sum; the tally decides when it is added to, when the quotient is
//! due and by what count, and when the call fails instead.
use vstd::prelude::*;

verus! {

/// One pull from the inbound sequence of numbers.
#[derive(PartialEq, Eq, Structural, Debug, Clone, Copy)]
pub enum AverageEvent {
    /// The next number arrived.
    Number,
    /// The inbound sequence ended normally.
    End,
    /// The inbound sequence failed; the failure itself stays with the caller.
    Failed,
}

/// What the caller does in answer to one pull.
#[derive(PartialEq, Eq, Structural, Debug, Clone, Copy)]
pub enum AverageAction {
    /// Add the number to the running sum and pull again.
    Accumulate,
    /// No number arrived: the call's result is zero.
    FinishEmpty,
    /// The call's result is the running sum divided by this count, never 0.
    FinishMean(u64),
    /// The call fails with the inbound failure; the running sum is dropped.
    Abort,
    /// The call has its outcome already; nothing to do.
    Ignore,
}

/// The running state of one streamed average.
pub struct AverageTally {
    count: u64,
    finished: bool,
}

impl AverageTally {
    /// How many numbers were accumulated.
    pub closed spec fn count_spec(&self) -> nat {
        self.count as nat
    }

    /// The call has its single outcome, a result or a failure.
    pub closed spec fn is_finished(&self) -> bool {
        self.finished
    }

    /// A tally that has seen nothing.
    pub fn new() -> (r: AverageTally)
        ensures
            r.count_spec() == 0,
            !r.is_finished(),
    {
        AverageTally { count: 0, finished: false }
    }

    /// How many numbers were accumulated.
    pub fn count(&self) -> (r: u64)
        ensures
            r == self.count_spec(),
    {
        self.count
    }

    /// Whether the call has its outcome.
    pub fn finished(&self) -> (r: bool)
        ensures
            r == self.is_finished(),
    {
        self.finished
    }

    /// Answers one pull. A number is accumulated; the end yields exactly one
    /// result, zero when nothing arrived; a failure yields the failure and no
    /// result. After the outcome every pull is ignored.
    pub fn on_event(&mut self, ev: AverageEvent) -> (r: AverageAction)
        requires
            !old(self).is_finished() && ev == AverageEvent::Number ==> old(self).count_spec() < u64::MAX,
        ensures
            old(self).is_finished() ==> r == AverageAction::Ignore && final(self).is_finished()
                && final(self).count_spec() == old(self).count_spec(),
            !old(self).is_finished() ==> match ev {
                AverageEvent::Number => r == AverageAction::Accumulate && !final(self).is_finished()
                    && final(self).count_spec() == old(self).count_spec() + 1,
                AverageEvent::End => final(self).is_finished()
                    && final(self).count_spec() == old(self).count_spec()
                    && r == if old(self).count_spec() == 0 {
                        AverageAction::FinishEmpty
                    } else {
                        AverageAction::FinishMean(old(self).count_spec() as u64)
                    },
                AverageEvent::Failed => r == AverageAction::Abort && final(self).is_finished()
                    && final(self).count_spec() == old(self).count_spec(),
            },
    {
        if self.finished {
            return AverageAction::Ignore;
        }
        match ev {
            AverageEvent::Number => {
                self.count = self.count + 1;
                AverageAction::Accumulate
            },
            AverageEvent::End => {
                self.finished = true;
                if self.count == 0 {
                    AverageAction::FinishEmpty
                } else {
                    AverageAction::FinishMean(self.count)
                }
            },
            AverageEvent::Failed => {
                self.finished = true;
                AverageAction::Abort
            },
        }
    }
}

} // verus!
